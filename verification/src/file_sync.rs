//! Resolving conflicts between local edits and external changes to a file.
use vstd::prelude::*;

use std::path::PathBuf;
use std::time::SystemTime;

use crate::text::{
    chars_eq, chars_of, chars_range, join, line_spans, lines, owned, push_chars, push_str, spans_ok,
};

verus! {

broadcast use vstd::string::group_string_axioms;

#[verifier::external_type_specification]
#[verifier::external_body]
pub struct ExPathBuf(std::path::PathBuf);

/// Information about an external file change
#[derive(Debug)]
pub struct ExternalChange {
    /// Path to the changed file
    pub file_path: PathBuf,
    /// New content from the file
    pub new_content: String,
    /// Timestamp of the external change
    pub timestamp: SystemTime,
    /// File modification time
    pub modified_time: SystemTime,
}

/// Strategy for resolving conflicts
#[derive(Debug, Clone, Copy, PartialEq, Eq, Structural)]
pub enum ConflictResolutionStrategy {
    /// Keep local changes, discard external changes
    PreferLocal,
    /// Keep external changes, discard local changes
    PreferExternal,
    /// Attempt to merge changes automatically
    AutoMerge,
    /// Prompt user for manual resolution
    Manual,
}

/// A region of text with conflicting changes
#[derive(Debug)]
pub struct ConflictRegion {
    /// Start line of the conflict
    pub start_line: usize,
    /// End line of the conflict
    pub end_line: usize,
    /// Local version of the conflicting text
    pub local_version: String,
    /// External version of the conflicting text
    pub external_version: String,
}

/// What a `ConflictRegion` says.
pub struct RegionView {
    pub start_line: int,
    pub end_line: int,
    pub local: Seq<char>,
    pub external: Seq<char>,
}

impl View for ConflictRegion {
    type V = RegionView;

    open spec fn view(&self) -> RegionView {
        RegionView {
            start_line: self.start_line as int,
            end_line: self.end_line as int,
            local: self.local_version@,
            external: self.external_version@,
        }
    }
}

pub open spec fn region_views(s: Seq<ConflictRegion>) -> Seq<RegionView> {
    s.map_values(|r: ConflictRegion| r@)
}

/// Result of conflict resolution
#[derive(Debug)]
pub struct ConflictResolution {
    /// Resolved content
    pub content: String,
    /// Strategy that was used
    pub strategy_used: ConflictResolutionStrategy,
    /// Whether the resolution was successful
    pub success: bool,
    /// Conflicts that couldn't be auto-resolved
    pub unresolved_conflicts: Vec<ConflictRegion>,
}

/// What a `ConflictResolution` says.
#[verifier::ext_equal]
pub struct ResolutionView {
    pub content: Seq<char>,
    pub strategy: ConflictResolutionStrategy,
    pub success: bool,
    pub conflicts: Seq<RegionView>,
}

impl View for ConflictResolution {
    type V = ResolutionView;

    open spec fn view(&self) -> ResolutionView {
        ResolutionView {
            content: self.content@,
            strategy: self.strategy_used,
            success: self.success,
            conflicts: region_views(self.unresolved_conflicts@),
        }
    }
}

// ---------------------------------------------------------------------------
// Specification
// ---------------------------------------------------------------------------

pub open spec fn max_int(a: int, b: int) -> int {
    if a >= b {
        a
    } else {
        b
    }
}

/// The merged lines: line `k` is the local one where there is one, else
/// the external one.
pub open spec fn merged_lines(l: Seq<Seq<char>>, e: Seq<Seq<char>>) -> Seq<Seq<char>> {
    Seq::new(
        max_int(l.len() as int, e.len() as int) as nat,
        |k: int|
            if k < l.len() {
                l[k]
            } else {
                e[k]
            },
    )
}

/// The conflicts among the first `n` line pairs: each pair of differing
/// lines, at its line number.
pub open spec fn conflicts_upto(l: Seq<Seq<char>>, e: Seq<Seq<char>>, n: int) -> Seq<RegionView>
    decreases n,
{
    if n <= 0 {
        seq![]
    } else {
        let k = n - 1;
        let rest = conflicts_upto(l, e, k);
        if k < l.len() && k < e.len() && l[k] != e[k] {
            rest.push(RegionView { start_line: k, end_line: k + 1, local: l[k], external: e[k] })
        } else {
            rest
        }
    }
}

/// What the conflicts among the first `n` line pairs are: one region per
/// pair of differing lines below `n`, covering that line and holding both
/// versions, in increasing line order, and nothing else.
proof fn lemma_conflicts_upto(l: Seq<Seq<char>>, e: Seq<Seq<char>>, n: int)
    requires
        n >= 0,
    ensures
        forall|i: int|
            0 <= i < conflicts_upto(l, e, n).len() ==> {
                let c = #[trigger] conflicts_upto(l, e, n)[i];
                &&& 0 <= c.start_line < n
                &&& c.start_line < l.len() && c.start_line < e.len()
                &&& l[c.start_line] != e[c.start_line]
                &&& c == (RegionView {
                    start_line: c.start_line,
                    end_line: c.start_line + 1,
                    local: l[c.start_line],
                    external: e[c.start_line],
                })
            },
        forall|i: int, j: int|
            0 <= i < j < conflicts_upto(l, e, n).len() ==> (#[trigger] conflicts_upto(l, e, n)[i]).start_line
                < (#[trigger] conflicts_upto(l, e, n)[j]).start_line,
        forall|k: int|
            0 <= k < n && k < l.len() && k < e.len() && #[trigger] l[k] != e[k] ==> exists|i: int|
                0 <= i < conflicts_upto(l, e, n).len() && (#[trigger] conflicts_upto(l, e, n)[i])
                    == (RegionView { start_line: k, end_line: k + 1, local: l[k], external: e[k] }),
    decreases n,
{
    if n > 0 {
        lemma_conflicts_upto(l, e, n - 1);
        let rest = conflicts_upto(l, e, n - 1);
        let cs = conflicts_upto(l, e, n);
        let k0 = n - 1;
        if k0 < l.len() && k0 < e.len() && l[k0] != e[k0] {
            assert(cs == rest.push(
                RegionView { start_line: k0, end_line: k0 + 1, local: l[k0], external: e[k0] },
            ));
            assert forall|k: int|
                0 <= k < n && k < l.len() && k < e.len() && #[trigger] l[k] != e[k] implies exists|i: int|
                0 <= i < cs.len() && (#[trigger] cs[i]) == (RegionView {
                    start_line: k,
                    end_line: k + 1,
                    local: l[k],
                    external: e[k],
                }) by {
                if k == k0 {
                    assert(cs[rest.len() as int] == RegionView {
                        start_line: k,
                        end_line: k + 1,
                        local: l[k],
                        external: e[k],
                    });
                } else {
                    let i = choose|i: int|
                        0 <= i < rest.len() && (#[trigger] rest[i]) == (RegionView {
                            start_line: k,
                            end_line: k + 1,
                            local: l[k],
                            external: e[k],
                        });
                    assert(cs[i] == rest[i]);
                }
            }
            assert forall|i: int, j: int| 0 <= i < j < cs.len() implies (#[trigger] cs[i]).start_line
                < (#[trigger] cs[j]).start_line by {
                if j == rest.len() {
                    assert(cs[i] == rest[i]);
                } else {
                    assert(cs[i] == rest[i] && cs[j] == rest[j]);
                }
            }
            assert forall|i: int| 0 <= i < cs.len() implies {
                let c = #[trigger] cs[i];
                &&& 0 <= c.start_line < n
                &&& c.start_line < l.len() && c.start_line < e.len()
                &&& l[c.start_line] != e[c.start_line]
                &&& c == (RegionView {
                    start_line: c.start_line,
                    end_line: c.start_line + 1,
                    local: l[c.start_line],
                    external: e[c.start_line],
                })
            } by {
                if i < rest.len() {
                    assert(cs[i] == rest[i]);
                }
            }
        } else {
            assert(cs == rest);
        }
    }
}

/// The merge reports every pair of differing lines, and only those: for
/// each line number below both line counts where the two versions differ,
/// a conflict covering that line with both versions, in increasing line
/// order; and it succeeds exactly when no line pair differs.
pub proof fn lemma_merge_reports_each_differing_line(local: Seq<char>, external: Seq<char>)
    ensures
        forall|k: int|
            0 <= k < lines(local).len() && k < lines(external).len() && #[trigger] lines(local)[k]
                != lines(external)[k] ==> exists|i: int|
                0 <= i < spec_simple_merge(local, external).conflicts.len() && (#[trigger] spec_simple_merge(
                    local,
                    external,
                ).conflicts[i]) == (RegionView {
                    start_line: k,
                    end_line: k + 1,
                    local: lines(local)[k],
                    external: lines(external)[k],
                }),
        forall|i: int|
            0 <= i < spec_simple_merge(local, external).conflicts.len() ==> {
                let c = #[trigger] spec_simple_merge(local, external).conflicts[i];
                &&& 0 <= c.start_line < lines(local).len() && c.start_line < lines(external).len()
                &&& lines(local)[c.start_line] != lines(external)[c.start_line]
                &&& c == (RegionView {
                    start_line: c.start_line,
                    end_line: c.start_line + 1,
                    local: lines(local)[c.start_line],
                    external: lines(external)[c.start_line],
                })
            },
        forall|i: int, j: int|
            0 <= i < j < spec_simple_merge(local, external).conflicts.len() ==> (#[trigger] spec_simple_merge(
                local,
                external,
            ).conflicts[i]).start_line < (#[trigger] spec_simple_merge(
                local,
                external,
            ).conflicts[j]).start_line,
        spec_simple_merge(local, external).success <==> (forall|k: int|
            0 <= k < lines(local).len() && k < lines(external).len() ==> #[trigger] lines(local)[k]
                == lines(external)[k]),
{
    let l = lines(local);
    let e = lines(external);
    let n = max_int(l.len() as int, e.len() as int);
    lemma_conflicts_upto(l, e, n);
    let cs = conflicts_upto(l, e, n);
    assert(spec_simple_merge(local, external).conflicts == cs);
    assert forall|k: int|
        0 <= k < l.len() && k < e.len() && #[trigger] l[k] != e[k] implies exists|i: int|
        0 <= i < cs.len() && (#[trigger] cs[i]) == (RegionView {
            start_line: k,
            end_line: k + 1,
            local: l[k],
            external: e[k],
        }) by {
        assert(k < n);
    }
    if cs.len() > 0 {
        let c = cs[0];
        assert(l[c.start_line] != e[c.start_line]);
    } else {
        assert forall|k: int| 0 <= k < l.len() && k < e.len() implies #[trigger] l[k] == e[k] by {
            if l[k] != e[k] {
                assert(k < n);
                let i = choose|i: int|
                    0 <= i < cs.len() && (#[trigger] cs[i]) == (RegionView {
                        start_line: k,
                        end_line: k + 1,
                        local: l[k],
                        external: e[k],
                    });
            }
        }
    }
}

/// The line-by-line merge of `local` and `external`: local lines win, and
/// each pair of differing lines is reported; it succeeds when there is
/// none.
pub open spec fn spec_simple_merge(local: Seq<char>, external: Seq<char>) -> ResolutionView {
    let l = lines(local);
    let e = lines(external);
    let cs = conflicts_upto(l, e, max_int(l.len() as int, e.len() as int));
    ResolutionView {
        content: join(merged_lines(l, e), "\n"@),
        strategy: ConflictResolutionStrategy::AutoMerge,
        success: cs.len() == 0,
        conflicts: cs,
    }
}

/// Both versions between conflict markers.
pub open spec fn manual_content(local: Seq<char>, external: Seq<char>) -> Seq<char> {
    "<<<<<<< LOCAL\n"@ + local + "\n=======\n"@ + external + "\n>>>>>>> EXTERNAL"@
}

/// How a conflict is resolved under each strategy.
pub open spec fn spec_resolve(
    local: Seq<char>,
    external: Seq<char>,
    strategy: ConflictResolutionStrategy,
) -> ResolutionView {
    match strategy {
        ConflictResolutionStrategy::PreferLocal => ResolutionView {
            content: local,
            strategy,
            success: true,
            conflicts: seq![],
        },
        ConflictResolutionStrategy::PreferExternal => ResolutionView {
            content: external,
            strategy,
            success: true,
            conflicts: seq![],
        },
        ConflictResolutionStrategy::AutoMerge => spec_simple_merge(local, external),
        ConflictResolutionStrategy::Manual => ResolutionView {
            content: manual_content(local, external),
            strategy,
            success: false,
            conflicts: seq![
                RegionView {
                    start_line: 0,
                    end_line: lines(local).len() as int,
                    local,
                    external,
                },
            ],
        },
    }
}

proof fn lemma_no_conflicts_with_itself(l: Seq<Seq<char>>, n: int)
    ensures
        conflicts_upto(l, l, n).len() == 0,
    decreases n,
{
    if n > 0 {
        lemma_no_conflicts_with_itself(l, n - 1);
    }
}

/// Merging a text with itself reports no conflict, succeeds, and gives the
/// text's lines joined by newlines.
pub proof fn lemma_merge_with_itself(s: Seq<char>)
    ensures
        spec_simple_merge(s, s) == (ResolutionView {
            content: join(lines(s), "\n"@),
            strategy: ConflictResolutionStrategy::AutoMerge,
            success: true,
            conflicts: seq![],
        }),
{
    let l = lines(s);
    lemma_no_conflicts_with_itself(l, l.len() as int);
    assert(merged_lines(l, l) =~= l);
    assert(conflicts_upto(l, l, l.len() as int) =~= Seq::<RegionView>::empty());
}

/// The merge keeps every local line, in place, and every external line past
/// the end of the local ones.
pub proof fn lemma_merge_keeps_local_lines(local: Seq<char>, external: Seq<char>)
    ensures
        merged_lines(lines(local), lines(external)).take(lines(local).len() as int) == lines(
            local,
        ),
        lines(local).len() <= lines(external).len() ==> merged_lines(lines(local), lines(external)).skip(
            lines(local).len() as int,
        ) == lines(external).skip(lines(local).len() as int),
{
    let l = lines(local);
    let e = lines(external);
    assert(merged_lines(l, e).take(l.len() as int) =~= l);
    if l.len() <= e.len() {
        assert(merged_lines(l, e).skip(l.len() as int) =~= e.skip(l.len() as int));
    }
}

// ---------------------------------------------------------------------------
// Implementation
// ---------------------------------------------------------------------------

/// Perform simple line-based merge: local lines win, and each pair of
/// differing lines is reported as a conflict.
pub fn simple_merge(local: &str, external: &str) -> (r: ConflictResolution)
    ensures
        r@ == spec_simple_merge(local@, external@),
{
    let lv = chars_of(local);
    let ev = chars_of(external);
    let ls = line_spans(lv.as_slice());
    let es = line_spans(ev.as_slice());
    let ghost l = lines(local@);
    let ghost e = lines(external@);
    let ghost merged = merged_lines(l, e);
    let mut content = String::new();
    let mut conflicts: Vec<ConflictRegion> = Vec::new();
    let mut k: usize = 0;
    let n = if ls.len() >= es.len() {
        ls.len()
    } else {
        es.len()
    };
    assert(content@ =~= join(merged.take(0), "\n"@));
    while k < n
        invariant
            spans_ok(lv@, ls@),
            spans_ok(ev@, es@),
            lv@ == local@,
            ev@ == external@,
            l == lines(local@),
            e == lines(external@),
            merged == merged_lines(l, e),
            n == max_int(l.len() as int, e.len() as int),
            k <= n,
            content@ == join(merged.take(k as int), "\n"@),
            region_views(conflicts@) == conflicts_upto(l, e, k as int),
        decreases n - k,
    {
        let ghost before = content@;
        if k > 0 {
            push_str(&mut content, "\n");
        }
        if k < ls.len() {
            let (a, b) = ls[k];
            assert(lv@.subrange(a as int, b as int) == l[k as int]);
            push_chars(&mut content, lv.as_slice(), a, b);
            if k < es.len() {
                let (c, d) = es[k];
                assert(ev@.subrange(c as int, d as int) == e[k as int]);
                let local_line = chars_range(lv.as_slice(), a, b);
                let external_line = chars_range(ev.as_slice(), c, d);
                if !chars_eq(local_line.as_slice(), external_line.as_slice()) {
                    let ghost cbefore = conflicts@;
                    conflicts.push(
                        ConflictRegion {
                            start_line: k,
                            end_line: k + 1,
                            local_version: crate::text::string_of(lv.as_slice(), a, b),
                            external_version: crate::text::string_of(ev.as_slice(), c, d),
                        },
                    );
                    assert(region_views(conflicts@) =~= region_views(cbefore).push(
                        conflicts@.last()@,
                    ));
                }
            }
        } else {
            let (c, d) = es[k];
            assert(ev@.subrange(c as int, d as int) == e[k as int]);
            push_chars(&mut content, ev.as_slice(), c, d);
        }
        proof {
            assert(merged.take(k + 1).drop_last() =~= merged.take(k as int));
            assert(merged.take(k + 1).last() == merged[k as int]);
            if k == 0 {
                assert(content@ =~= join(merged.take(1), "\n"@));
            } else {
                assert(content@ =~= before + "\n"@ + merged[k as int]);
            }
        }
        k += 1;
    }
    assert(merged.take(n as int) =~= merged);
    let success = conflicts.len() == 0;
    ConflictResolution {
        content,
        strategy_used: ConflictResolutionStrategy::AutoMerge,
        success,
        unresolved_conflicts: conflicts,
    }
}

/// Resolve conflicts between local edits and external changes with the
/// given strategy.
pub fn resolve_conflict(
    local_content: &str,
    external_content: &str,
    strategy: ConflictResolutionStrategy,
) -> (r: ConflictResolution)
    ensures
        r@ == spec_resolve(local_content@, external_content@, strategy),
{
    match strategy {
        ConflictResolutionStrategy::PreferLocal => {
            let r = ConflictResolution {
                content: owned(local_content),
                strategy_used: strategy,
                success: true,
                unresolved_conflicts: Vec::new(),
            };
            assert(r@ =~= spec_resolve(local_content@, external_content@, strategy));
            r
        },
        ConflictResolutionStrategy::PreferExternal => {
            let r = ConflictResolution {
                content: owned(external_content),
                strategy_used: strategy,
                success: true,
                unresolved_conflicts: Vec::new(),
            };
            assert(r@ =~= spec_resolve(local_content@, external_content@, strategy));
            r
        },
        ConflictResolutionStrategy::AutoMerge => simple_merge(local_content, external_content),
        ConflictResolutionStrategy::Manual => {
            let mut content = owned("<<<<<<< LOCAL\n");
            push_str(&mut content, local_content);
            push_str(&mut content, "\n=======\n");
            push_str(&mut content, external_content);
            push_str(&mut content, "\n>>>>>>> EXTERNAL");
            let lv = chars_of(local_content);
            let line_count = line_spans(lv.as_slice()).len();
            let mut conflicts: Vec<ConflictRegion> = Vec::new();
            conflicts.push(
                ConflictRegion {
                    start_line: 0,
                    end_line: line_count,
                    local_version: owned(local_content),
                    external_version: owned(external_content),
                },
            );
            let r = ConflictResolution {
                content,
                strategy_used: strategy,
                success: false,
                unresolved_conflicts: conflicts,
            };
            assert(r@ =~= spec_resolve(local_content@, external_content@, strategy));
            r
        },
    }
}

} // verus!

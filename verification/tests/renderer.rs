use rune_editor::renderer::{MarkdownRenderer, MermaidRenderer};

#[test]
fn markdown_renderer_identity() {
    let r = MarkdownRenderer::new();
    assert_eq!(r.name(), "markdown-renderer");
    assert_eq!(r.version(), "0.1.0");
    assert!(r.can_render("text/markdown"));
    assert!(r.can_render("text/x-markdown"));
    assert!(!r.can_render("text/html"));
    assert_eq!(r.supported_extensions(), vec!["md", "markdown"]);
    assert_eq!(r.priority(), 200);
    assert_eq!(r.features(), vec!["gfm", "tables", "code_blocks", "mermaid"]);
}

#[test]
fn markdown_renderer_heading() {
    let r = MarkdownRenderer::new();
    let out = r.markdown_to_html("# Hi");
    assert_eq!(out.html, "<h1>Hi</h1>");
    assert_eq!(out.content_hash, "4");
    assert_eq!(out.renderer_name, "markdown-renderer");
    assert!(!out.has_tables);
    assert!(!out.has_code_blocks);
    assert!(!out.has_mermaid_blocks);
}

#[test]
fn markdown_renderer_detects_features() {
    let r = MarkdownRenderer::new();
    let table = r.markdown_to_html("| a | b |\n|---|---|\n| 1 | 2 |\n");
    assert!(table.has_tables);
    assert!(table.html.contains("<table>"));

    let code = r.markdown_to_html("```mermaid\ngraph TD\n```\n");
    assert!(code.has_code_blocks);
    assert!(code.has_mermaid_blocks);

    let strike = r.markdown_to_html("~Venus~Mars!");
    assert_eq!(strike.html, "<p><del>Venus</del>Mars!</p>");
}

#[test]
fn markdown_renderer_hash_counts_bytes() {
    let r = MarkdownRenderer::new();
    // "é" takes two bytes: 17 bytes in all.
    let out = r.markdown_to_html("héllo héllo héllo");
    assert_eq!(out.content_hash, "14");
    let empty = r.markdown_to_html("");
    assert_eq!(empty.content_hash, "0");
}

#[test]
fn markdown_renderer_passes_html_through() {
    let r = MarkdownRenderer::new();
    let out = r.markdown_to_html("<div>raw</div>\n");
    assert!(out.html.contains("<div>raw</div>"));
}

#[test]
fn mermaid_renderer_identity() {
    let r = MermaidRenderer::new();
    assert_eq!(r.name(), "mermaid-renderer");
    assert!(r.can_render("text/html"));
    assert!(r.can_render("application/html"));
    assert!(!r.can_render("text/markdown"));
    assert_eq!(r.supported_extensions(), vec!["html", "htm"]);
    assert_eq!(r.priority(), 150);
    assert_eq!(r.features(), vec!["mermaid_diagrams", "interactive_content"]);
}

#[test]
fn mermaid_block_becomes_container() {
    let r = MermaidRenderer::new();
    let input = "<p>x</p><pre><code class=\"language-mermaid\">graph TD\nA--&gt;B\n</code></pre><p>y</p>";
    let out = r.process_mermaid(input);
    assert_eq!(out.html, "<p>x</p><div class=\"mermaid\">graph TD\nA-->B\n</div><p>y</p>");
    assert_eq!(out.diagram_count, 1);
    assert!(out.interactive);
    assert_eq!(out.assets.len(), 1);
    assert_eq!(out.assets[0].url, "/mermaid.min.js");
    assert!(out.assets[0].is_critical);
    assert_eq!(out.content_hash, format!("{:x}", input.len()));
}

#[test]
fn mermaid_blocks_are_replaced_in_order() {
    let r = MermaidRenderer::new();
    let input = "<pre><code class=\"language-mermaid\">a</code></pre>\n<pre><code class=\"language-rust\">fn</code></pre>\n<pre><code class=\"language-mermaid\">b &amp; c</code></pre>";
    let out = r.process_mermaid(input);
    assert_eq!(
        out.html,
        "<div class=\"mermaid\">a</div>\n<pre><code class=\"language-rust\">fn</code></pre>\n<div class=\"mermaid\">b & c</div>"
    );
    assert_eq!(out.diagram_count, 2);
}

#[test]
fn mermaid_without_blocks_is_unchanged() {
    let r = MermaidRenderer::new();
    let input = "<p>plain</p><pre><code class=\"language-mermaid\">never closed";
    let out = r.process_mermaid(input);
    assert_eq!(out.html, input);
    assert_eq!(out.diagram_count, 0);
    assert!(!out.interactive);
    assert!(out.assets.is_empty());
}

#[test]
fn markdown_then_mermaid_pipeline() {
    let md = MarkdownRenderer::new().markdown_to_html("```mermaid\ngraph TD\n  A --> B\n```\n");
    let out = MermaidRenderer::new().process_mermaid(&md.html);
    assert_eq!(out.diagram_count, 1);
    assert!(out.html.contains("<div class=\"mermaid\">graph TD\n  A --> B\n</div>"));
}

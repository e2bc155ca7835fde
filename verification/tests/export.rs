use qwen_studio_linux::config::schema::{ChatExport, ChatMessage};
use qwen_studio_linux::ipc::export::{
    check_export, export_file_stem, export_file_stem_checked, export_format, format_filter, html_escape, ExportFormat,
};

fn msg(role: &str, content: &str) -> ChatMessage {
    ChatMessage { role: role.to_string(), content: content.to_string(), timestamp: None }
}

fn chat() -> ChatExport {
    ChatExport {
        title: "T <1>".to_string(),
        messages: vec![msg("user", "hi & bye"), msg("assistant", "<b>ok</b>"), msg("system", "s")],
        exported_at: "123".to_string(),
    }
}

#[test]
fn escaping() {
    assert_eq!(html_escape("a&b<c>d\"e'f"), "a&amp;b&lt;c&gt;d&quot;e&#39;f");
    assert_eq!(html_escape("plain"), "plain");
}

#[test]
fn markdown_rendering() {
    assert_eq!(
        chat().to_markdown(),
        "# T <1>\n\n*Exported at: 123*\n\n---\n\n### **You**\n\nhi & bye\n\n---\n\n### **Qwen**\n\n<b>ok</b>\n\n---\n\n### system\n\ns\n\n---\n\n"
    );
}

#[test]
fn html_rendering() {
    let h = chat().to_html();
    assert!(h.starts_with("<!DOCTYPE html><html><head><meta charset=\"UTF-8\"><title>T &lt;1&gt;</title>\n        <style>"));
    assert!(h.contains("<h1>T &lt;1&gt;</h1><p>Exported: 123</p><hr>"));
    assert!(h.contains("<div class='user'><b>You</b><pre>hi &amp; bye</pre></div>"));
    assert!(h.contains("<div class='assistant'><b>Qwen</b><pre>&lt;b&gt;ok&lt;/b&gt;</pre></div>"));
    assert!(h.ends_with("<div class='assistant'><b>Qwen</b><pre>s</pre></div></body></html>"));
}

#[test]
fn export_requests() {
    assert_eq!(check_export("t", &vec![msg("user", "x")]), Ok(()));
    assert_eq!(check_export(&"t".repeat(513), &Vec::new()), Err("Title too long".to_string()));
    let many: Vec<ChatMessage> = (0..100001).map(|_| msg("user", "")).collect();
    assert_eq!(check_export("t", &many), Err("Too many messages".to_string()));
    let big = vec![msg("user", &"x".repeat(6_000_000)), msg("user", &"y".repeat(6_000_000))];
    assert_eq!(check_export("t", &big), Err("Export too large (10 MB limit)".to_string()));
}

#[test]
fn formats() {
    assert_eq!(export_format("json"), ExportFormat::Json);
    assert_eq!(export_format("html"), ExportFormat::Html);
    assert_eq!(export_format("pdf"), ExportFormat::Markdown);
    assert_eq!(format_filter(ExportFormat::Json), ("JSON", "json"));
    assert_eq!(format_filter(ExportFormat::Markdown), ("Markdown", "md"));
}

#[test]
fn export_names() {
    assert_eq!(export_file_stem("My chat: part 2"), "My_chat__part_2");
    assert_eq!(export_file_stem("  ..  "), "__");
    assert_eq!(export_file_stem(""), "chat");
    assert_eq!(export_file_stem(&"a".repeat(150)), "a".repeat(100));
    assert_eq!(export_file_stem_checked(&format!("a{}", "é".repeat(80))), None);
}

#[test]
fn escaped_text_is_inert() {
    let e = html_escape("<script>alert('x')</script> \"q\"");
    assert!(!e.contains('<') && !e.contains('>') && !e.contains('"') && !e.contains('\''));
    assert_eq!(e, "&lt;script&gt;alert(&#39;x&#39;)&lt;/script&gt; &quot;q&quot;");
}

#[test]
fn export_stem_is_plain_name() {
    for title in ["../../etc/passwd", ".bashrc", "a b.c/d", "   ", "日本語 タイトル"] {
        let s = export_file_stem(title);
        assert!(!s.is_empty());
        assert!(s.len() <= 100);
        assert!(!s.contains('/') && !s.contains('.') && !s.contains(' '));
    }
    assert_eq!(export_file_stem("../../etc/passwd"), "______etc_passwd");
    assert_eq!(export_file_stem("日本語 タイトル"), "日本語_タイトル");
}

use qwen_studio_linux::ipc::download::{
    extension_from_filename, extension_from_mime, filter_name_for_ext, finish_download, prepare_download,
    sanitize_filename, sanitize_filename_checked,
};
use qwen_studio_linux::ipc::clipboard::check_clipboard_image;
use qwen_studio_linux::ipc::drop::{drop_call, drop_meta, drop_script, dropped_file_metas, file_metas, mime_for_path};

#[test]
fn sanitized_names() {
    assert_eq!(sanitize_filename("report.pdf"), "report.pdf");
    assert_eq!(sanitize_filename("../../etc/passwd"), "passwd");
    assert_eq!(sanitize_filename("a/b/c d?.txt"), "c d_.txt");
    assert_eq!(sanitize_filename("   "), "download");
    assert_eq!(sanitize_filename(".bashrc"), "download.bashrc");
    assert_eq!(sanitize_filename("café.png"), "café.png");
    assert_eq!(sanitize_filename("dir/"), "dir");
    assert_eq!(sanitize_filename(".."), "download..");
}

#[test]
fn long_names_keep_their_extension() {
    let name = format!("{}.txt", "a".repeat(300));
    let s = sanitize_filename(&name);
    assert_eq!(s.len(), 200);
    assert!(s.ends_with(".txt"));
    let plain = "b".repeat(250);
    assert_eq!(sanitize_filename(&plain), "b".repeat(200));
}

#[test]
fn names_that_cannot_be_cut() {
    let ext_too_long = format!("x.{}", "a".repeat(250));
    assert_eq!(sanitize_filename_checked(&ext_too_long), None);
    let split_char = format!("a{}", "é".repeat(150));
    assert_eq!(sanitize_filename_checked(&split_char), None);
    assert_eq!(sanitize_filename_checked("ok.txt"), Some("ok.txt".to_string()));
}

#[test]
fn extensions() {
    assert_eq!(extension_from_filename("photo.JPG"), Some("jpg".to_string()));
    assert_eq!(extension_from_filename("archive.tar.gz"), Some("gz".to_string()));
    assert_eq!(extension_from_filename(".hidden"), None);
    assert_eq!(extension_from_filename("noext"), None);
    assert_eq!(extension_from_filename("x.abcdefghijk"), None);
    assert_eq!(extension_from_filename("x.a-b"), None);
    assert_eq!(extension_from_filename("x."), None);
}

#[test]
fn mime_extensions() {
    assert_eq!(extension_from_mime("image/PNG"), Some("png".to_string()));
    assert_eq!(extension_from_mime("text/plain; charset=utf-8"), Some("txt".to_string()));
    assert_eq!(extension_from_mime(" application/json "), Some("json".to_string()));
    assert_eq!(extension_from_mime("image/jpg"), Some("jpg".to_string()));
    assert_eq!(extension_from_mime("application/x-unknown"), None);
}

#[test]
fn dialog_filters() {
    assert_eq!(filter_name_for_ext("png"), "Imagem");
    assert_eq!(filter_name_for_ext("md"), "Texto");
    assert_eq!(filter_name_for_ext("xls"), "Planilha");
    assert_eq!(filter_name_for_ext("exe"), "Arquivo");
    assert_eq!(filter_name_for_ext(""), "Arquivo");
}

#[test]
fn download_requests() {
    let ok = prepare_download("notes.txt", None, "aGVsbG8=").unwrap();
    assert_eq!(ok.file_name, "notes.txt");
    assert_eq!(ok.extension, "txt");
    assert_eq!(ok.filter_name, "Texto");
    assert_eq!(ok.title, "Salvar arquivo");
    assert_eq!(
        ok.filters,
        vec![
            ("Texto".to_string(), vec!["txt".to_string()]),
            ("Todos os arquivos".to_string(), vec!["*".to_string()]),
        ]
    );
    assert_eq!(ok.bytes, b"hello".to_vec());
    let unpadded = prepare_download("data", Some("application/json"), " aGVsbG8 ").unwrap();
    assert_eq!(unpadded.bytes, b"hello".to_vec());
    assert_eq!(unpadded.extension, "json");
    assert_eq!(unpadded.filter_name, "JSON");
    let none = prepare_download("data", None, "aGk=").unwrap();
    assert_eq!(none.extension, "");
    assert_eq!(none.filter_name, "Arquivo");
    assert_eq!(none.title, "Salvar arquivo");
    assert!(none.filters.is_empty());
}

#[test]
fn download_errors() {
    let long = "a".repeat(513);
    assert_eq!(prepare_download(&long, None, "aGk="), Err("Filename too long".to_string()));
    assert_eq!(prepare_download("a", None, ""), Err("Empty file".to_string()));
    let big = "A".repeat(146800641);
    assert_eq!(prepare_download("a", None, &big), Err("File too large (100 MB limit)".to_string()));
    let bad = prepare_download("a", None, "!!!").unwrap_err();
    assert!(bad.starts_with("Invalid base64: "));
    assert!(bad.len() > "Invalid base64: ".len());
    assert_eq!(finish_download("a".to_string(), None, Ok(Vec::new())), Err("Empty file after decode".to_string()));
    assert_eq!(finish_download("a".to_string(), None, Err("boom".to_string())), Err("Invalid base64: boom".to_string()));
    assert_eq!(
        finish_download("a".to_string(), None, Ok(vec![0u8; 104857601])),
        Err("File too large (100 MB limit)".to_string())
    );
}

#[test]
fn dropped_files() {
    assert_eq!(mime_for_path("/tmp/A.PNG"), "image/png");
    assert_eq!(mime_for_path("/tmp/clip.mkv"), "video/x-matroska");
    assert_eq!(mime_for_path("/tmp/x.unknown"), "application/octet-stream");
    assert_eq!(mime_for_path("/tmp/noext"), "application/octet-stream");
    let m = drop_meta("/home/u/doc.pdf", 10);
    assert_eq!(m.name, "doc.pdf");
    assert_eq!(m.mime, "application/pdf");
    assert_eq!(m.size, 10);
    assert_eq!(drop_meta("/", 0).name, "file");
    let entries = vec![
        ("/a.txt".to_string(), Some(1u64)),
        ("/gone".to_string(), None),
        ("/huge.bin".to_string(), Some(104857601u64)),
    ];
    let kept: Vec<String> = dropped_file_metas(&entries).into_iter().map(|m| m.path).collect();
    assert_eq!(kept, vec!["/a.txt".to_string(), "/huge.bin".to_string()]);
    let big = vec![("/video.mkv".to_string(), Some(200u64 * 1024 * 1024))];
    let metas = dropped_file_metas(&big);
    assert_eq!(metas.len(), 1);
    assert_eq!(metas[0].size, 209715200);
    assert_eq!(metas[0].mime, "video/x-matroska");
    assert_eq!(drop_call(&metas, "[x]"), Some("window.__qwenHandleDrop && window.__qwenHandleDrop([x])".to_string()));
    assert_eq!(drop_call(&Vec::new(), "[]"), None);
    let all: Vec<String> = file_metas(&entries).into_iter().map(|m| m.path).collect();
    assert_eq!(all, vec!["/a.txt".to_string(), "/huge.bin".to_string()]);
    assert_eq!(drop_script("[]"), "window.__qwenHandleDrop && window.__qwenHandleDrop([])");
}

#[test]
fn clipboard_images() {
    assert_eq!(check_clipboard_image(0, 10, 40), Err("no image in clipboard".to_string()));
    assert_eq!(check_clipboard_image(10, 10, 0), Err("no image in clipboard".to_string()));
    assert_eq!(check_clipboard_image(3840, 2160, 1000), Ok(()));
    assert_eq!(check_clipboard_image(3841, 2160, 1000), Err("clipboard image too large".to_string()));
    assert_eq!(check_clipboard_image(10, 10, 16777217), Err("clipboard image too large".to_string()));
    assert_eq!(check_clipboard_image(u32::MAX, u32::MAX, 4), Err("clipboard image too large".to_string()));
}

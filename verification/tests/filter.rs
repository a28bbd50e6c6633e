use asm_lsp::filter::{
    is_supported_asm_document, is_supported_asm_language_id, is_supported_asm_uri,
};
use asm_lsp::uri::Uri;

fn supported(text: &str) -> bool {
    is_supported_asm_uri(&Uri::parse(text).unwrap())
}

#[test]
fn language_ids_of_assembly_in_any_case() {
    for id in ["asm", "ASM", "Asm", "assembly", "Assembly", "ASSEMBLY"] {
        assert!(is_supported_asm_language_id(id), "{id}");
    }
    for id in ["", "as", "asm ", "assembler", "c", "\u{212a}sm", "nasm"] {
        assert!(!is_supported_asm_language_id(id), "{id}");
    }
}

#[test]
fn extensions_of_assembly_in_any_case() {
    for path in ["/tmp/a.s", "/tmp/a.S", "/tmp/a.asm", "/tmp/a.ASM", "/tmp/a.Asm", "a.s"] {
        assert!(supported(path), "{path}");
    }
    for path in ["/tmp/a.c", "/tmp/a", "/tmp/a.sx", "/tmp/s", "/tmp/asm", "/tmp/a.s.c", ""] {
        assert!(!supported(path), "{path}");
    }
}

#[test]
fn extensions_are_those_that_the_system_finds() {
    let paths = [
        "", "/", ".", "..", "/.", "/..", "./", "../", "a.s", "a.s/", "a.s//", "a.s/.", "a.s/./",
        "a.s/..", "a.s/../", "/a.s/./.", ".s", "/x/.s", "..s", "...s", "a..s", "a.", "a.s.",
        "a.b.s", "/a.asm", "/d.s/f", "/d.s/f.c", "/d/f.S", "./.asm", "./a.asm", "/a.s/...", "s",
        "/x%20y/%20.s", "a/b.s/c/..", "a.s/.x", "/C:/a.s", "/C:/.s",
    ];
    let uris = ["file:C:.s", "file:C:a.s", "file:////server/share.s", "file:////server/share/a.s"];
    for text in paths.into_iter().chain(uris) {
        let uri = Uri::parse(text).unwrap();
        let found = std::path::Path::new(uri.path()).extension().and_then(|ext| ext.to_str());
        assert_eq!(uri.path_extension(), found, "{text}");
        assert_eq!(uri.clone().path_extension(), found, "{text}");
        let expected =
            found.is_some_and(|ext| matches!(ext.to_ascii_lowercase().as_str(), "asm" | "s"));
        assert_eq!(is_supported_asm_uri(&uri), expected, "{text}");
    }
    assert_eq!(Uri::parse("/x/a.b.S").unwrap().path_extension(), Some("S"));
    assert_eq!(Uri::parse("/x/.s").unwrap().path_extension(), None);
    assert_eq!(Uri::parse("/x/a.").unwrap().path_extension(), Some(""));
}

#[test]
fn only_the_path_of_a_uri_counts() {
    assert!(supported("file:///tmp/main.S"));
    assert!(supported("file:///tmp/main.s?x=y.c#z.c"));
    assert!(!supported("file:///tmp/main.c?x=y.s"));
    assert!(!supported("file:///tmp/main.c#z.s"));
    assert!(!supported("http://host.s"));
    assert!(supported("untitled:main.asm"));
}

#[test]
fn the_name_of_a_file_decides_whatever_its_directory() {
    for directory in ["", "/tmp", "/tmp/x.c", "relative", "/a/../b"] {
        assert!(supported(&format!("{directory}/main.s")));
        assert!(!supported(&format!("{directory}/main.c")));
    }
}

#[test]
fn documents_are_supported_by_language_or_by_uri() {
    let source = Uri::parse("file:///tmp/main.s").unwrap();
    let text = Uri::parse("file:///tmp/main.txt").unwrap();
    assert!(is_supported_asm_document(&source, None));
    assert!(is_supported_asm_document(&source, Some("c")));
    assert!(is_supported_asm_document(&text, Some("Assembly")));
    assert!(!is_supported_asm_document(&text, None));
    assert!(!is_supported_asm_document(&text, Some("plaintext")));
}

#[test]
fn uris_are_parsed() {
    let uri = Uri::parse("file:///tmp/a%20b.s?q#f").unwrap();
    assert_eq!(uri.as_str(), "file:///tmp/a%20b.s?q#f");
    assert_eq!(uri.path(), "/tmp/a%20b.s");
    assert_eq!(uri.clone().as_str(), uri.as_str());
    for text in ["file:///tmp/a b.s", "file:///%zz", "http://[::1", "a\\b"] {
        assert!(Uri::parse(text).is_none(), "{text}");
    }
}

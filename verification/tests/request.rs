use rsb::arg::Arg;
use rsb::request::{
    body_steps, client_headers, file_parts, guess_mime, pairs, trim, trimmed_pair, white_space,
    BodyStep,
};

fn options() -> Arg {
    Arg::new("http://localhost/".to_string())
}

fn texts(items: &[&str]) -> Vec<String> {
    items.iter().map(|s| s.to_string()).collect()
}

fn named(items: &[(&str, &str)]) -> Vec<(String, String)> {
    items
        .iter()
        .map(|(a, b)| (a.to_string(), b.to_string()))
        .collect()
}

#[test]
fn a_pair_is_read_without_the_white_space_around_it() {
    let pair = |a: &str, b: &str| Some((a.to_string(), b.to_string()));
    assert_eq!(trimmed_pair("k1:v1"), pair("k1", "v1"));
    assert_eq!(trimmed_pair("  k1:v1\t\n"), pair("k1", "v1"));
    assert_eq!(trimmed_pair(" k1 : v1 "), pair("k1 ", " v1"));
    assert_eq!(trimmed_pair("\u{a0}k:v\u{3000}"), pair("k", "v"));
    assert_eq!(trimmed_pair("Accept: text/html:x"), pair("Accept", " text/html:x"));
    assert_eq!(trimmed_pair("  :  "), pair("", ""));
    assert_eq!(trimmed_pair("k3"), None);
    assert_eq!(trimmed_pair("   "), None);
}

#[test]
fn items_without_colon_are_passed_over() {
    assert_eq!(
        pairs(&texts(&["k1:v1", "k2", " k3:v3 ", "", "k1:other"])),
        named(&[("k1", "v1"), ("k3", "v3"), ("k1", "other")])
    );
    assert!(pairs(&texts(&[])).is_empty());
    assert!(pairs(&texts(&["k3"])).is_empty());
}

#[test]
fn headers_of_the_client() {
    let mut arg = options();
    assert!(client_headers(&arg).is_empty());
    arg.headers = texts(&["k1:v1", "k2:v2", "k3:v3"]);
    assert_eq!(
        client_headers(&arg),
        named(&[("k1", "v1"), ("k2", "v2"), ("k3", "v3")])
    );
    arg.headers = texts(&["k3"]);
    assert!(client_headers(&arg).is_empty());
    arg.disable_keep_alive = true;
    assert_eq!(client_headers(&arg), named(&[("Connection", "Close")]));
    arg.headers = texts(&["Connection:keep-alive", "X-Id: 7"]);
    assert_eq!(
        client_headers(&arg),
        named(&[
            ("Connection", "keep-alive"),
            ("X-Id", " 7"),
            ("Connection", "Close")
        ])
    );
}

#[test]
fn media_types_by_extension() {
    let parts = file_parts(&named(&[
        ("t1", "text1.txt"),
        ("page", "/srv/www/index.HTML"),
        ("data", "data.json"),
        ("image", "dir.d/logo.png"),
        ("drawing", "drawing.svg"),
        ("unknown", "file.no-such-extension"),
        ("bare", "Makefile"),
    ]));
    let found: Vec<(&str, &str, &str)> = parts
        .iter()
        .map(|p| (p.name.as_str(), p.path.as_str(), p.mime.as_str()))
        .collect();
    assert_eq!(
        found,
        vec![
            ("t1", "text1.txt", "text/plain"),
            ("page", "/srv/www/index.HTML", "text/html"),
            ("data", "data.json", "application/json"),
            ("image", "dir.d/logo.png", "image/png"),
            ("drawing", "drawing.svg", "image/svg"),
            ("unknown", "file.no-such-extension", "application/octet-stream"),
            ("bare", "Makefile", "application/octet-stream"),
        ]
    );
}

#[test]
fn a_request_without_body_has_no_steps() {
    assert!(body_steps(&options()).is_empty());
}

#[test]
fn one_step_for_each_kind_of_body() {
    let mut arg = options();
    arg.text_body = Some("text".to_string());
    let steps = body_steps(&arg);
    assert_eq!(steps.len(), 1);
    assert!(matches!(&steps[0], BodyStep::Text(t) if t == "text"));
    assert_eq!(steps[0].content_type(), Some("text/plain; charset=UTF-8"));

    let mut arg = options();
    arg.text_file = Some("ts.txt".to_string());
    let steps = body_steps(&arg);
    assert_eq!(steps.len(), 1);
    assert!(matches!(&steps[0], BodyStep::TextFile(p) if p == "ts.txt"));
    assert_eq!(steps[0].content_type(), Some("text/plain; charset=UTF-8"));

    let mut arg = options();
    arg.json_body = Some("{\"a\":1}".to_string());
    let steps = body_steps(&arg);
    assert_eq!(steps.len(), 1);
    assert!(matches!(&steps[0], BodyStep::Json(t) if t == "{\"a\":1}"));
    assert_eq!(
        steps[0].content_type(),
        Some("application/json; charset=UTF-8")
    );

    let mut arg = options();
    arg.json_file = Some("jsonBody.txt".to_string());
    let steps = body_steps(&arg);
    assert_eq!(steps.len(), 1);
    assert!(matches!(&steps[0], BodyStep::JsonFile(p) if p == "jsonBody.txt"));
    assert_eq!(
        steps[0].content_type(),
        Some("application/json; charset=UTF-8")
    );

    let mut arg = options();
    arg.form = texts(&["k1:v1", "k2:v2", "broken"]);
    let steps = body_steps(&arg);
    assert_eq!(steps.len(), 1);
    assert!(matches!(&steps[0], BodyStep::Form(f) if *f == named(&[("k1", "v1"), ("k2", "v2")])));
    assert_eq!(steps[0].content_type(), None);
}

#[test]
fn a_multipart_body_has_fields_and_files() {
    let mut arg = options();
    arg.mp = texts(&["k1:v1", "k2:v2"]);
    arg.mp_file = named(&[("t1", "text1.txt"), ("t2", "text2.bin")]);
    let steps = body_steps(&arg);
    assert_eq!(steps.len(), 1);
    assert_eq!(steps[0].content_type(), None);
    match &steps[0] {
        BodyStep::Multipart { fields, files } => {
            assert_eq!(*fields, named(&[("k1", "v1"), ("k2", "v2")]));
            assert_eq!(files.len(), 2);
            assert_eq!(files[0].name, "t1");
            assert_eq!(files[0].path, "text1.txt");
            assert_eq!(files[0].mime, "text/plain");
            assert_eq!(files[1].name, "t2");
            assert_eq!(files[1].mime, "application/octet-stream");
        }
        _ => panic!("not a multipart body"),
    }

    let mut arg = options();
    arg.mp_file = named(&[("t1", "text1.txt")]);
    let steps = body_steps(&arg);
    assert!(matches!(&steps[0], BodyStep::Multipart { fields, files }
        if fields.is_empty() && files.len() == 1));
}

#[test]
fn steps_come_in_a_fixed_order() {
    let mut arg = options();
    arg.mp = texts(&["k:v"]);
    arg.json_file = Some("b.json".to_string());
    arg.json_body = Some("{}".to_string());
    arg.form = texts(&["f:1"]);
    arg.text_file = Some("a.txt".to_string());
    arg.text_body = Some("a".to_string());
    let steps = body_steps(&arg);
    assert_eq!(steps.len(), 6);
    assert!(matches!(steps[0], BodyStep::Text(_)));
    assert!(matches!(steps[1], BodyStep::TextFile(_)));
    assert!(matches!(steps[2], BodyStep::Form(_)));
    assert!(matches!(steps[3], BodyStep::Json(_)));
    assert!(matches!(steps[4], BodyStep::JsonFile(_)));
    assert!(matches!(steps[5], BodyStep::Multipart { .. }));
}

#[test]
fn white_space_is_what_the_standard_library_takes_for_it() {
    for code in 0..=0x10ffffu32 {
        if let Some(c) = char::from_u32(code) {
            assert_eq!(white_space(c), c.is_whitespace(), "U+{code:04X}");
        }
    }
}

#[test]
fn texts_are_trimmed_as_the_standard_library_trims_them() {
    let texts = [
        "",
        " ",
        "\t\n\r ",
        "k:v",
        "  k:v",
        "k:v  ",
        " \t k : v \n ",
        "\u{a0}k:v\u{3000}",
        "\u{2028}\u{2029}x\u{202f}\u{205f}",
        "\u{1680}a b\u{85}",
        "\u{200b}zero width is no white space\u{200b}",
        "\u{180e}x\u{feff}",
        "a  b",
        " größe \u{2003}",
    ];
    for text in texts {
        assert_eq!(trim(text), text.trim(), "{text:?}");
    }
}

#[test]
fn a_media_type_is_type_and_subtype() {
    assert_eq!(guess_mime("text1.txt"), "text/plain");
    assert_eq!(guess_mime("a/b/archive.tar.gz"), "application/gzip");
    assert_eq!(guess_mime("photo.JPEG"), "image/jpeg");
    assert_eq!(guess_mime("drawing.svg"), "image/svg");
    assert_eq!(guess_mime("no-extension"), "application/octet-stream");
    assert_eq!(guess_mime(""), "application/octet-stream");
}

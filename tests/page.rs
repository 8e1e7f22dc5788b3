use bagel_bomber::page::{icon_file, script_file, style_file, wrap_html, BAGEL_PNG, SCRIPT_JS, STYLE_CSS};

#[test]
fn wrap_html_frames_title_and_body() {
    let page = wrap_html("Not Found", "<h1>Not Found</h1>".to_string());
    let expected = "\n<!DOCTYPE html>\n<html>\n<head>\n    <meta charset=\"UTF-8\">\n    <title>Not Found</title>\n    <link rel=\"icon\" href=\"/bagel.png\"/>\n    <link rel=\"stylesheet\" href=\"/style\"/>\n</head>\n<body>\n    <h1>Not Found</h1>\n</body>\n</html>\n";
    assert_eq!(page, expected);
}

#[test]
fn wrap_html_empty_parts() {
    let page = wrap_html("", String::new());
    assert!(page.contains("<title></title>"));
    assert!(page.contains("<body>\n    \n</body>"));
}

#[test]
fn assets_are_served_whole() {
    assert_eq!(style_file(), STYLE_CSS);
    assert!(style_file().contains(".drone-link"));
    assert_eq!(script_file(), SCRIPT_JS);
    assert!(script_file().contains("WebSocket"));
    let icon = icon_file();
    assert_eq!(icon, &BAGEL_PNG[..]);
    assert_eq!(&icon[..8], &[137, 80, 78, 71, 13, 10, 26, 10]);
}

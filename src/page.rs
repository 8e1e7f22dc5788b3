//! The web page that shows the drones: its frame and its static assets.
use vstd::prelude::*;

verus! {

/// The drone icon, a 16 by 16 PNG image of a bagel.
pub const BAGEL_PNG: [u8; 128] = [
    137, 80, 78, 71, 13, 10, 26, 10, 0, 0, 0, 13, 73, 72, 68, 82, 0, 0, 0, 16, 0, 0, 0, 16, 8,
    6, 0, 0, 0, 31, 243, 255, 97, 0, 0, 0, 71, 73, 68, 65, 84, 120, 218, 99, 96, 160, 5, 56,
    81, 99, 243, 31, 27, 38, 91, 35, 81, 6, 17, 171, 25, 167, 33, 20, 25, 64, 170, 102, 12, 67,
    136, 113, 34, 109, 13, 88, 149, 105, 243, 31, 29, 163, 27, 128, 87, 13, 77, 12, 32, 6, 19,
    180, 129, 104, 205, 84, 49, 128, 20, 67, 8, 230, 9, 178, 53, 146, 3, 0, 136, 69, 99, 82,
    160, 249, 215, 65, 0, 0, 0, 0, 73, 69, 78, 68, 174, 66, 96, 130
];

/// The stylesheet served at `/style`.
pub const STYLE_CSS: &'static str = r#"body {
    font-family: sans-serif;
    background: #fdf6e3;
    color: #3b2f2f;
    margin: 0;
    padding: 2em;
}

h1 {
    text-align: center;
}

.drone-list {
    display: flex;
    flex-wrap: wrap;
    gap: 1em;
    justify-content: center;
}

.drone-link {
    padding: 0.8em 1.2em;
    border-radius: 2em;
    background: #d9a441;
    color: #3b2f2f;
    text-decoration: none;
}

.drone-link:hover {
    background: #c48a2c;
}

.container {
    display: flex;
    flex-direction: column;
    align-items: center;
    gap: 1em;
}

#field {
    position: relative;
    width: 480px;
    height: 320px;
    border: 2px solid #3b2f2f;
    border-radius: 8px;
    overflow: hidden;
    background: #e8f4e8;
}

.bagel {
    position: absolute;
    width: 32px;
    height: 32px;
    background: url("/bagel.png") no-repeat center / contain;
}

.bagel.exploded {
    filter: hue-rotate(300deg) saturate(3);
}

.back-button {
    color: #3b2f2f;
}
"#;

/// The script served at `/script`: it asks the web socket for the updates of
/// the drone shown and lets a bagel fall for each fragment the drone handled.
pub const SCRIPT_JS: &'static str = r#"const field = document.getElementById("field");
const label = document.createElement("p");
field.parentElement.insertBefore(label, field);

function showPdr(pdr) {
    label.textContent = "Packet drop rate: " + pdr;
}

function dropBagel(exploded) {
    const bagel = document.createElement("div");
    bagel.className = exploded ? "bagel exploded" : "bagel";
    bagel.style.left = Math.floor(Math.random() * (field.clientWidth - 32)) + "px";
    bagel.style.top = "0px";
    field.appendChild(bagel);
    requestAnimationFrame(() => {
        bagel.style.transition = "top 1.5s ease-in";
        bagel.style.top = (field.clientHeight - 32) + "px";
    });
    setTimeout(() => bagel.remove(), 2000);
}

showPdr(field.dataset.pdr);

const socket = new WebSocket("ws://" + location.hostname + ":8464");
socket.onopen = () => socket.send(field.dataset.id);
socket.onmessage = (event) => {
    const update = JSON.parse(event.data);
    showPdr(update.pdr);
    for (const drop of update.drops) {
        dropBagel(drop.exploded);
    }
};
"#;

/// An HTML document with the given title and body, linking the icon and the
/// stylesheet.
pub open spec fn html_page(title: Seq<char>, body: Seq<char>) -> Seq<char> {
    "\n<!DOCTYPE html>\n<html>\n<head>\n    <meta charset=\"UTF-8\">\n    <title>"@ + title
        + "</title>\n    <link rel=\"icon\" href=\"/bagel.png\"/>\n    <link rel=\"stylesheet\" href=\"/style\"/>\n</head>\n<body>\n    "@
        + body + "\n</body>\n</html>\n"@
}

/// Wraps `body` in a complete HTML document titled `title`.
pub fn wrap_html(title: &str, body: String) -> (r: String)
    ensures
        r@ == html_page(title@, body@),
{
    let mut page = String::from_str(
        "\n<!DOCTYPE html>\n<html>\n<head>\n    <meta charset=\"UTF-8\">\n    <title>",
    );
    page.append(title);
    page.append(
        "</title>\n    <link rel=\"icon\" href=\"/bagel.png\"/>\n    <link rel=\"stylesheet\" href=\"/style\"/>\n</head>\n<body>\n    ",
    );
    page.append(body.as_str());
    page.append("\n</body>\n</html>\n");
    page
}

/// The icon served at `/bagel.png`.
pub fn icon_file() -> (r: &'static [u8])
    ensures
        r@ == BAGEL_PNG@,
{
    BAGEL_PNG.as_slice()
}

/// The stylesheet served at `/style`.
pub fn style_file() -> (r: &'static str)
    ensures
        r@ == STYLE_CSS@,
{
    STYLE_CSS
}

/// The script served at `/script`.
pub fn script_file() -> (r: &'static str)
    ensures
        r@ == SCRIPT_JS@,
{
    SCRIPT_JS
}

} // verus!

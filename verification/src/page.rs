//! The download page: the HTML that shows a file's name and size and loads the script
//! that fetches and decrypts it in the browser.
use vstd::prelude::*;
use crate::headers::bool_text;
use crate::server::{html_escape, html_escaped, FileRecord};
use crate::text::{decimal_i64, i64_to_decimal, push_all};

verus! {

pub const PAGE_TITLE_START: &'static str = "<!DOCTYPE html>\n<html lang=\"en\">\n<head>\n    <meta charset=\"UTF-8\">\n    <meta name=\"viewport\" content=\"width=device-width, initial-scale=1.0\">\n    <title>spacetaxi - Download ";

pub const PAGE_STYLE_1: &'static str = "</title>\n    <style>\n        * { margin: 0; padding: 0; box-sizing: border-box; }\n        body {\n            font-family: -apple-system, BlinkMacSystemFont, 'Segoe UI', Roboto, sans-serif;\n            background: linear-gradient(135deg, #1a1a2e 0%, #16213e 100%);\n            min-height: 100vh;\n            display: flex;\n            align-items: center;\n            justify-content: center;\n";

pub const PAGE_STYLE_2: &'static str = "            color: #fff;\n        }\n        .container {\n            background: rgba(255, 255, 255, 0.05);\n            backdrop-filter: blur(10px);\n            border-radius: 16px;\n            padding: 2rem;\n            max-width: 400px;\n            width: 90%;\n            text-align: center;\n";

pub const PAGE_STYLE_3: &'static str = "            border: 1px solid rgba(255, 255, 255, 0.1);\n        }\n        .logo { font-size: 2rem; margin-bottom: 1rem; }\n        h1 { font-size: 1.5rem; margin-bottom: 0.5rem; word-break: break-all; }\n        .size { color: #888; margin-bottom: 1.5rem; }\n        .progress-container {\n            background: rgba(255, 255, 255, 0.1);\n            border-radius: 8px;\n            overflow: hidden;\n            margin-bottom: 1rem;\n";

pub const PAGE_STYLE_4: &'static str = "            display: none;\n        }\n        .progress {\n            height: 8px;\n            background: linear-gradient(90deg, #00d9ff, #00ff88);\n            width: 0%;\n            transition: width 0.3s;\n        }\n        .status { color: #888; margin-bottom: 1.5rem; }\n        .password-form {\n";

pub const PAGE_STYLE_5: &'static str = "            margin-bottom: 1.5rem;\n            display: none;\n        }\n        .password-form input {\n            width: 100%;\n            padding: 0.75rem;\n            border-radius: 8px;\n            border: 1px solid rgba(255, 255, 255, 0.2);\n            background: rgba(255, 255, 255, 0.1);\n            color: #fff;\n";

pub const PAGE_STYLE_6: &'static str = "            margin-bottom: 0.5rem;\n        }\n        .password-form input::placeholder { color: #888; }\n        button {\n            background: linear-gradient(90deg, #00d9ff, #00ff88);\n            border: none;\n            padding: 0.75rem 2rem;\n            border-radius: 8px;\n            color: #1a1a2e;\n            font-weight: bold;\n";

pub const PAGE_STYLE_7: &'static str = "            cursor: pointer;\n            transition: transform 0.2s;\n        }\n        button:hover { transform: scale(1.05); }\n        button:disabled {\n            opacity: 0.5;\n            cursor: not-allowed;\n            transform: none;\n        }\n        .error {\n";

pub const PAGE_STYLE_8: &'static str = "            color: #ff6b6b;\n            margin-top: 1rem;\n            display: none;\n        }\n    </style>\n</head>\n<body>\n    <div class=\"container\">\n        <div class=\"logo\">\u{1f680}</div>\n        <h1>";

pub const PAGE_SIZE_START: &'static str = "</h1>\n        <p class=\"size\">";

pub const PAGE_BODY_1: &'static str = "</p>\n        <div class=\"password-form\" id=\"passwordForm\">\n            <input type=\"password\" id=\"password\" placeholder=\"Enter password\">\n            <button onclick=\"submitPassword()\">Decrypt</button>\n        </div>\n        <div class=\"progress-container\" id=\"progressContainer\">\n            <div class=\"progress\" id=\"progress\"></div>\n        </div>\n        <p class=\"status\" id=\"status\">Initializing...</p>\n        <p class=\"error\" id=\"error\"></p>\n";

pub const PAGE_BODY_2: &'static str = "    </div>\n    <script>\n        window.FILE_ID = \"";

pub const PAGE_FILENAME_VAR: &'static str = "\";\n        window.FILENAME = \"";

pub const PAGE_SIZE_VAR: &'static str = "\";\n        window.FILE_SIZE = ";

pub const PAGE_PASSWORD_VAR: &'static str = ";\n        window.HAS_PASSWORD = ";

pub const PAGE_END: &'static str = ";\n    </script>\n    <script src=\"/assets/decrypt.js\"></script>\n</body>\n</html>";

/// The page for a file: its escaped name in the title, the heading and a script variable,
/// the size text under the heading, and the id, size in bytes and password flag for the
/// script.
pub open spec fn page_html(f: Seq<char>, size: Seq<char>, id: Seq<char>, file_size: i64, has_password: bool) -> Seq<char> {
    PAGE_TITLE_START@ + f + PAGE_STYLE_1@ + PAGE_STYLE_2@ + PAGE_STYLE_3@ + PAGE_STYLE_4@ + PAGE_STYLE_5@ + PAGE_STYLE_6@ + PAGE_STYLE_7@ + PAGE_STYLE_8@ + f + PAGE_SIZE_START@ + size + PAGE_BODY_1@ + PAGE_BODY_2@ + id + PAGE_FILENAME_VAR@ + f + PAGE_SIZE_VAR@ + decimal_i64(file_size) + PAGE_PASSWORD_VAR@ + bool_text(has_password) + PAGE_END@
}

/// The end of the page: the script variable that tells the browser whether to ask for a
/// password, `true` for a password-protected file and `false` otherwise, and the closing
/// markup.
pub open spec fn page_tail(has_password: bool) -> Seq<char> {
    ";\n        window.HAS_PASSWORD = "@ + (if has_password { "true"@ } else { "false"@ }) + PAGE_END@
}

/// Every page ends by telling the browser the file's own password flag: the text `true`
/// exactly for a password-protected file, `false` for every other.
pub proof fn lemma_page_tells_password_flag(
    f: Seq<char>,
    size: Seq<char>,
    id: Seq<char>,
    file_size: i64,
    has_password: bool,
)
    ensures
        page_html(f, size, id, file_size, has_password).len() >= page_tail(has_password).len(),
        page_html(f, size, id, file_size, has_password).skip(
            page_html(f, size, id, file_size, has_password).len() - page_tail(has_password).len(),
        ) == page_tail(has_password),
{
    reveal_strlit(";\n        window.HAS_PASSWORD = ");
    reveal_strlit("true");
    reveal_strlit("false");
    assert(PAGE_PASSWORD_VAR@ =~= ";\n        window.HAS_PASSWORD = "@);
    let page = page_html(f, size, id, file_size, has_password);
    let tail = page_tail(has_password);
    let head = PAGE_TITLE_START@ + f + PAGE_STYLE_1@ + PAGE_STYLE_2@ + PAGE_STYLE_3@ + PAGE_STYLE_4@
        + PAGE_STYLE_5@ + PAGE_STYLE_6@ + PAGE_STYLE_7@ + PAGE_STYLE_8@ + f + PAGE_SIZE_START@ + size
        + PAGE_BODY_1@ + PAGE_BODY_2@ + id + PAGE_FILENAME_VAR@ + f + PAGE_SIZE_VAR@ + decimal_i64(file_size);
    assert(bool_text(has_password) == (if has_password { "true"@ } else { "false"@ }));
    assert(page =~= head + tail);
    assert(page.skip(head.len() as int) =~= tail);
}

/// Renders the download page of a file; `size_text` is the size in words shown to the
/// visitor.
pub fn download_page_html(id: &str, record: &FileRecord, size_text: &str) -> (r: String)
    ensures
        r@ == page_html(html_escaped(record.filename@), size_text@, id@, record.file_size, record.has_password),
        r@.len() >= page_tail(record.has_password).len(),
        r@.skip(r@.len() - page_tail(record.has_password).len()) == page_tail(record.has_password),
{
    let name = html_escape(record.filename.as_str());
    let mut r = String::new();
    push_all(&mut r, PAGE_TITLE_START);
    push_all(&mut r, name.as_str());
    push_all(&mut r, PAGE_STYLE_1);
    push_all(&mut r, PAGE_STYLE_2);
    push_all(&mut r, PAGE_STYLE_3);
    push_all(&mut r, PAGE_STYLE_4);
    push_all(&mut r, PAGE_STYLE_5);
    push_all(&mut r, PAGE_STYLE_6);
    push_all(&mut r, PAGE_STYLE_7);
    push_all(&mut r, PAGE_STYLE_8);
    push_all(&mut r, name.as_str());
    push_all(&mut r, PAGE_SIZE_START);
    push_all(&mut r, size_text);
    push_all(&mut r, PAGE_BODY_1);
    push_all(&mut r, PAGE_BODY_2);
    push_all(&mut r, id);
    push_all(&mut r, PAGE_FILENAME_VAR);
    push_all(&mut r, name.as_str());
    push_all(&mut r, PAGE_SIZE_VAR);
    let fs = i64_to_decimal(record.file_size);
    push_all(&mut r, fs.as_str());
    push_all(&mut r, PAGE_PASSWORD_VAR);
    push_all(&mut r, if record.has_password { "true" } else { "false" });
    push_all(&mut r, PAGE_END);
    proof {
        reveal_strlit("true");
        reveal_strlit("false");
    }
    assert(r@ =~= page_html(html_escaped(record.filename@), size_text@, id@, record.file_size, record.has_password));
    proof {
        lemma_page_tells_password_flag(html_escaped(record.filename@), size_text@, id@, record.file_size, record.has_password);
    }
    r
}

} // verus!

//! What the editor shows for a file type: the language name of an extension
//! and the icon of a file name.

use vstd::prelude::*;
use crate::entry::dot_end;
use crate::symbols::same_text;
use crate::text::{lower_of, lowercase};

verus! {

/// The language of each known lowercase extension.
pub open spec fn language_table() -> Seq<(Seq<char>, Seq<char>)> {
    seq![
        ("rs"@, "Rust"@),
        ("py"@, "Python"@),
        ("js"@, "JavaScript"@),
        ("ts"@, "TypeScript"@),
        ("jsx"@, "JavaScript React"@),
        ("tsx"@, "TypeScript React"@),
        ("html"@, "HTML"@),
        ("htm"@, "HTML"@),
        ("css"@, "CSS"@),
        ("scss"@, "SCSS"@),
        ("sass"@, "SCSS"@),
        ("json"@, "JSON"@),
        ("md"@, "Markdown"@),
        ("yaml"@, "YAML"@),
        ("yml"@, "YAML"@),
        ("toml"@, "TOML"@),
        ("xml"@, "XML"@),
        ("c"@, "C"@),
        ("h"@, "C"@),
        ("cpp"@, "C++"@),
        ("cc"@, "C++"@),
        ("cxx"@, "C++"@),
        ("hpp"@, "C++"@),
        ("java"@, "Java"@),
        ("go"@, "Go"@),
        ("rb"@, "Ruby"@),
        ("php"@, "PHP"@),
        ("sh"@, "Shell"@),
        ("bash"@, "Shell"@),
        ("ps1"@, "PowerShell"@),
        ("sql"@, "SQL"@),
        ("swift"@, "Swift"@),
        ("kt"@, "Kotlin"@),
    ]
}

/// The icon of each known lowercase extension.
pub open spec fn icon_table() -> Seq<(Seq<char>, Seq<char>)> {
    seq![
        ("rs"@, "🦀"@),
        ("py"@, "🐍"@),
        ("js"@, "📜"@),
        ("mjs"@, "📜"@),
        ("ts"@, "📘"@),
        ("jsx"@, "⚛️"@),
        ("tsx"@, "⚛️"@),
        ("html"@, "🌐"@),
        ("htm"@, "🌐"@),
        ("css"@, "🎨"@),
        ("scss"@, "🎨"@),
        ("sass"@, "🎨"@),
        ("json"@, "📋"@),
        ("md"@, "📝"@),
        ("txt"@, "📄"@),
        ("yaml"@, "⚙️"@),
        ("yml"@, "⚙️"@),
        ("toml"@, "⚙️"@),
        ("xml"@, "📰"@),
        ("png"@, "🖼️"@),
        ("jpg"@, "🖼️"@),
        ("jpeg"@, "🖼️"@),
        ("gif"@, "🖼️"@),
        ("svg"@, "🖼️"@),
        ("ico"@, "🖼️"@),
        ("mp3"@, "🎵"@),
        ("wav"@, "🎵"@),
        ("ogg"@, "🎵"@),
        ("mp4"@, "🎬"@),
        ("webm"@, "🎬"@),
        ("avi"@, "🎬"@),
        ("zip"@, "📦"@),
        ("tar"@, "📦"@),
        ("gz"@, "📦"@),
        ("rar"@, "📦"@),
        ("pdf"@, "📕"@),
        ("doc"@, "📘"@),
        ("docx"@, "📘"@),
        ("xls"@, "📗"@),
        ("xlsx"@, "📗"@),
        ("ppt"@, "📙"@),
        ("pptx"@, "📙"@),
        ("exe"@, "⚡"@),
        ("msi"@, "⚡"@),
        ("dll"@, "🔧"@),
        ("so"@, "🔧"@),
        ("dylib"@, "🔧"@),
        ("sh"@, "🖥️"@),
        ("bash"@, "🖥️"@),
        ("ps1"@, "💠"@),
        ("bat"@, "🖥️"@),
        ("cmd"@, "🖥️"@),
        ("gitignore"@, "📌"@),
        ("gitattributes"@, "📌"@),
        ("lock"@, "🔒"@),
        ("env"@, "🔐"@),
    ]
}

/// The value of the first pair of `table` whose key is `key`, else `default`.
pub open spec fn lookup(table: Seq<(Seq<char>, Seq<char>)>, key: Seq<char>, default: Seq<char>) -> Seq<char>
    decreases table.len(),
{
    if table.len() == 0 {
        default
    } else if table[0].0 == key {
        table[0].1
    } else {
        lookup(table.drop_first(), key, default)
    }
}

/// The views of a table of string pairs.
pub open spec fn pair_texts(t: Seq<(&str, &str)>) -> Seq<(Seq<char>, Seq<char>)> {
    t.map_values(|p: (&str, &str)| (p.0@, p.1@))
}

/// The value under `key` in `table`, else `default`, as `lookup` states it.
fn find_in(table: &[(&str, &str)], key: &str, default: &str) -> (r: String)
    ensures
        r@ == lookup(pair_texts(table@), key@, default@),
{
    let ghost t = pair_texts(table@);
    let mut i: usize = 0;
    assert(t.skip(0) =~= t);
    while i < table.len()
        invariant
            i <= table@.len(),
            t == pair_texts(table@),
            lookup(t, key@, default@) == lookup(t.skip(i as int), key@, default@),
        decreases table@.len() - i,
    {
        let (k, v) = table[i];
        assert(t.skip(i as int)[0] == (k@, v@));
        if same_text(k, key) {
            return v.to_owned();
        }
        assert(t.skip(i as int).drop_first() =~= t.skip(i + 1));
        i = i + 1;
    }
    assert(t.skip(i as int).len() == 0);
    default.to_owned()
}

/// The language of a lowercase extension; "Plain Text" for an unknown one.
pub fn language_of(ext_lower: &str) -> (r: String)
    ensures
        r@ == lookup(language_table(), ext_lower@, "Plain Text"@),
{
    let table: [(&str, &str); 33] = [
        ("rs", "Rust"),
        ("py", "Python"),
        ("js", "JavaScript"),
        ("ts", "TypeScript"),
        ("jsx", "JavaScript React"),
        ("tsx", "TypeScript React"),
        ("html", "HTML"),
        ("htm", "HTML"),
        ("css", "CSS"),
        ("scss", "SCSS"),
        ("sass", "SCSS"),
        ("json", "JSON"),
        ("md", "Markdown"),
        ("yaml", "YAML"),
        ("yml", "YAML"),
        ("toml", "TOML"),
        ("xml", "XML"),
        ("c", "C"),
        ("h", "C"),
        ("cpp", "C++"),
        ("cc", "C++"),
        ("cxx", "C++"),
        ("hpp", "C++"),
        ("java", "Java"),
        ("go", "Go"),
        ("rb", "Ruby"),
        ("php", "PHP"),
        ("sh", "Shell"),
        ("bash", "Shell"),
        ("ps1", "PowerShell"),
        ("sql", "SQL"),
        ("swift", "Swift"),
        ("kt", "Kotlin"),
    ];
    assert(pair_texts(table@) =~= language_table());
    find_in(&table, ext_lower, "Plain Text")
}

/// The language of extension `ext`, of any case; "Plain Text" for an unknown one.
pub fn detect_language(ext: &str) -> (r: String)
    ensures
        r@ == lookup(language_table(), lower_of(ext@), "Plain Text"@),
{
    let e = lowercase(ext);
    language_of(e.as_str())
}

/// The icon of a lowercase extension; the page icon for an unknown one.
pub fn icon_of(ext_lower: &str) -> (r: String)
    ensures
        r@ == lookup(icon_table(), ext_lower@, "📄"@),
{
    let table: [(&str, &str); 56] = [
        ("rs", "🦀"),
        ("py", "🐍"),
        ("js", "📜"),
        ("mjs", "📜"),
        ("ts", "📘"),
        ("jsx", "⚛️"),
        ("tsx", "⚛️"),
        ("html", "🌐"),
        ("htm", "🌐"),
        ("css", "🎨"),
        ("scss", "🎨"),
        ("sass", "🎨"),
        ("json", "📋"),
        ("md", "📝"),
        ("txt", "📄"),
        ("yaml", "⚙️"),
        ("yml", "⚙️"),
        ("toml", "⚙️"),
        ("xml", "📰"),
        ("png", "🖼️"),
        ("jpg", "🖼️"),
        ("jpeg", "🖼️"),
        ("gif", "🖼️"),
        ("svg", "🖼️"),
        ("ico", "🖼️"),
        ("mp3", "🎵"),
        ("wav", "🎵"),
        ("ogg", "🎵"),
        ("mp4", "🎬"),
        ("webm", "🎬"),
        ("avi", "🎬"),
        ("zip", "📦"),
        ("tar", "📦"),
        ("gz", "📦"),
        ("rar", "📦"),
        ("pdf", "📕"),
        ("doc", "📘"),
        ("docx", "📘"),
        ("xls", "📗"),
        ("xlsx", "📗"),
        ("ppt", "📙"),
        ("pptx", "📙"),
        ("exe", "⚡"),
        ("msi", "⚡"),
        ("dll", "🔧"),
        ("so", "🔧"),
        ("dylib", "🔧"),
        ("sh", "🖥️"),
        ("bash", "🖥️"),
        ("ps1", "💠"),
        ("bat", "🖥️"),
        ("cmd", "🖥️"),
        ("gitignore", "📌"),
        ("gitattributes", "📌"),
        ("lock", "🔒"),
        ("env", "🔐"),
    ];
    assert(pair_texts(table@) =~= icon_table());
    find_in(&table, ext_lower, "📄")
}

/// What follows the last `.` of `name`, or all of it when it holds no `.`.
pub open spec fn last_dot_part(name: Seq<char>) -> Seq<char> {
    name.skip(dot_end(name))
}

/// What follows the last `.` of `name`, as `last_dot_part` states it.
pub fn after_last_dot(name: &str) -> (r: String)
    ensures
        r@ == last_dot_part(name@),
{
    let ext = crate::entry::extension(name);
    match ext {
        Some(e) => e,
        None => {
            proof {
                assert(name@.skip(0) =~= name@);
            }
            name.to_owned()
        },
    }
}

/// The icon shown beside file `name`, chosen by what follows its last `.`.
pub fn get_file_icon(name: &str) -> (r: String)
    ensures
        r@ == lookup(icon_table(), lower_of(last_dot_part(name@)), "📄"@),
{
    let part = after_last_dot(name);
    let e = lowercase(part.as_str());
    icon_of(e.as_str())
}

} // verus!

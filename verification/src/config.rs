//! The settings that a user may override, and their defaults.

use vstd::prelude::*;
use vstd::string::*;
use crate::dates::{format_pattern, format_selector, DateFormat};
use crate::utils::table_folder;

verus! {

/// The settings: which folder an extension is filed under, which names are
/// left alone, and which pattern each date format is written with. Each of
/// the two tables holds a key once.
#[derive(Clone, Debug, PartialEq, Eq)]
pub struct Config {
    pub file_type_mappings: Vec<(String, String)>,
    pub ignore_patterns: Vec<String>,
    pub date_formats: Vec<(String, String)>,
}

/// A table as the texts that it holds.
pub open spec fn table_view(table: Seq<(String, String)>) -> Seq<(Seq<char>, Seq<char>)> {
    Seq::new(table.len(), |i: int| (table[i].0@, table[i].1@))
}

/// A list as the texts that it holds.
pub open spec fn list_view(list: Seq<String>) -> Seq<Seq<char>> {
    Seq::new(list.len(), |i: int| list[i]@)
}

/// Whether no key stands twice in a table.
pub open spec fn has_distinct_keys(table: Seq<(Seq<char>, Seq<char>)>) -> bool {
    forall|i: int, j: int| 0 <= i < j < table.len() ==> table[i].0 != table[j].0
}

/// The folders of the extensions that the default settings list.
pub open spec fn default_mappings() -> Seq<(Seq<char>, Seq<char>)> {
    seq![
        ("jpg"@, "Images"@),
        ("jpeg"@, "Images"@),
        ("png"@, "Images"@),
        ("gif"@, "Images"@),
        ("bmp"@, "Images"@),
        ("tiff"@, "Images"@),
        ("svg"@, "Images"@),
        ("webp"@, "Images"@),
        ("ico"@, "Images"@),
        ("pdf"@, "Documents"@),
        ("doc"@, "Documents"@),
        ("docx"@, "Documents"@),
        ("txt"@, "Documents"@),
        ("rtf"@, "Documents"@),
        ("odt"@, "Documents"@),
        ("pages"@, "Documents"@),
        ("rs"@, "Code"@),
        ("py"@, "Code"@),
        ("js"@, "Code"@),
        ("ts"@, "Code"@),
        ("html"@, "Code"@),
        ("css"@, "Code"@),
        ("cpp"@, "Code"@),
        ("c"@, "Code"@),
        ("h"@, "Code"@),
        ("java"@, "Code"@),
    ]
}

/// The names that the default settings leave alone.
pub open spec fn default_ignore_patterns() -> Seq<Seq<char>> {
    seq![
        ".DS_Store"@,
        "Thumbs.db"@,
        "*.tmp"@,
        "*.temp"@,
        ".git"@,
        ".gitignore"@,
        "node_modules"@,
    ]
}

/// The patterns of the date formats in the default settings.
pub open spec fn default_date_formats() -> Seq<(Seq<char>, Seq<char>)> {
    seq![
        ("year"@, "%Y"@),
        ("month"@, "%Y-%m"@),
        ("day"@, "%Y-%m-%d"@),
    ]
}

impl Config {
    /// Whether the settings are the default ones.
    pub open spec fn is_default(&self) -> bool {
        &&& table_view(self.file_type_mappings@) == default_mappings()
        &&& list_view(self.ignore_patterns@) == default_ignore_patterns()
        &&& table_view(self.date_formats@) == default_date_formats()
    }

    /// Whether each table holds a key once.
    pub open spec fn well_formed(&self) -> bool {
        &&& has_distinct_keys(table_view(self.file_type_mappings@))
        &&& has_distinct_keys(table_view(self.date_formats@))
    }
}

fn put(table: &mut Vec<(String, String)>, key: &str, value: &str)
    ensures
        table_view(final(table)@) == table_view(old(table)@).push((key@, value@)),
{
    table.push((key.to_owned(), value.to_owned()));
    assert(table_view(table@) =~= table_view(old(table)@).push((key@, value@)));
}

fn list(patterns: &mut Vec<String>, pattern: &str)
    ensures
        list_view(final(patterns)@) == list_view(old(patterns)@).push(pattern@),
{
    patterns.push(pattern.to_owned());
    assert(list_view(patterns@) =~= list_view(old(patterns)@).push(pattern@));
}

fn default_file_type_mappings() -> (table: Vec<(String, String)>)
    ensures
        table_view(table@) == default_mappings(),
{
    let mut table: Vec<(String, String)> = Vec::new();
    assert(table_view(table@) =~= Seq::empty());
    put(&mut table, "jpg", "Images");
    put(&mut table, "jpeg", "Images");
    put(&mut table, "png", "Images");
    put(&mut table, "gif", "Images");
    put(&mut table, "bmp", "Images");
    put(&mut table, "tiff", "Images");
    put(&mut table, "svg", "Images");
    put(&mut table, "webp", "Images");
    put(&mut table, "ico", "Images");
    put(&mut table, "pdf", "Documents");
    put(&mut table, "doc", "Documents");
    put(&mut table, "docx", "Documents");
    put(&mut table, "txt", "Documents");
    put(&mut table, "rtf", "Documents");
    put(&mut table, "odt", "Documents");
    put(&mut table, "pages", "Documents");
    put(&mut table, "rs", "Code");
    put(&mut table, "py", "Code");
    put(&mut table, "js", "Code");
    put(&mut table, "ts", "Code");
    put(&mut table, "html", "Code");
    put(&mut table, "css", "Code");
    put(&mut table, "cpp", "Code");
    put(&mut table, "c", "Code");
    put(&mut table, "h", "Code");
    put(&mut table, "java", "Code");
    table
}

fn default_patterns() -> (patterns: Vec<String>)
    ensures
        list_view(patterns@) == default_ignore_patterns(),
{
    let mut patterns: Vec<String> = Vec::new();
    assert(list_view(patterns@) =~= Seq::empty());
    list(&mut patterns, ".DS_Store");
    list(&mut patterns, "Thumbs.db");
    list(&mut patterns, "*.tmp");
    list(&mut patterns, "*.temp");
    list(&mut patterns, ".git");
    list(&mut patterns, ".gitignore");
    list(&mut patterns, "node_modules");
    patterns
}

fn default_formats() -> (table: Vec<(String, String)>)
    ensures
        table_view(table@) == default_date_formats(),
{
    let mut table: Vec<(String, String)> = Vec::new();
    assert(table_view(table@) =~= Seq::empty());
    put(&mut table, "year", "%Y");
    put(&mut table, "month", "%Y-%m");
    put(&mut table, "day", "%Y-%m-%d");
    table
}

/// Lays the texts of the default tables open.
proof fn reveal_default_texts()
    ensures
        "jpg"@.len() == 3,
        "jpg"@[0] == 'j',
        "jpg"@[1] == 'p',
        "jpg"@[2] == 'g',
        "jpeg"@.len() == 4,
        "jpeg"@[0] == 'j',
        "jpeg"@[1] == 'p',
        "jpeg"@[2] == 'e',
        "jpeg"@[3] == 'g',
        "png"@.len() == 3,
        "png"@[0] == 'p',
        "png"@[1] == 'n',
        "png"@[2] == 'g',
        "gif"@.len() == 3,
        "gif"@[0] == 'g',
        "gif"@[1] == 'i',
        "gif"@[2] == 'f',
        "bmp"@.len() == 3,
        "bmp"@[0] == 'b',
        "bmp"@[1] == 'm',
        "bmp"@[2] == 'p',
        "tiff"@.len() == 4,
        "tiff"@[0] == 't',
        "tiff"@[1] == 'i',
        "tiff"@[2] == 'f',
        "tiff"@[3] == 'f',
        "svg"@.len() == 3,
        "svg"@[0] == 's',
        "svg"@[1] == 'v',
        "svg"@[2] == 'g',
        "webp"@.len() == 4,
        "webp"@[0] == 'w',
        "webp"@[1] == 'e',
        "webp"@[2] == 'b',
        "webp"@[3] == 'p',
        "ico"@.len() == 3,
        "ico"@[0] == 'i',
        "ico"@[1] == 'c',
        "ico"@[2] == 'o',
        "pdf"@.len() == 3,
        "pdf"@[0] == 'p',
        "pdf"@[1] == 'd',
        "pdf"@[2] == 'f',
        "doc"@.len() == 3,
        "doc"@[0] == 'd',
        "doc"@[1] == 'o',
        "doc"@[2] == 'c',
        "docx"@.len() == 4,
        "docx"@[0] == 'd',
        "docx"@[1] == 'o',
        "docx"@[2] == 'c',
        "docx"@[3] == 'x',
        "txt"@.len() == 3,
        "txt"@[0] == 't',
        "txt"@[1] == 'x',
        "txt"@[2] == 't',
        "rtf"@.len() == 3,
        "rtf"@[0] == 'r',
        "rtf"@[1] == 't',
        "rtf"@[2] == 'f',
        "odt"@.len() == 3,
        "odt"@[0] == 'o',
        "odt"@[1] == 'd',
        "odt"@[2] == 't',
        "pages"@.len() == 5,
        "pages"@[0] == 'p',
        "pages"@[1] == 'a',
        "pages"@[2] == 'g',
        "pages"@[3] == 'e',
        "pages"@[4] == 's',
        "rs"@.len() == 2,
        "rs"@[0] == 'r',
        "rs"@[1] == 's',
        "py"@.len() == 2,
        "py"@[0] == 'p',
        "py"@[1] == 'y',
        "js"@.len() == 2,
        "js"@[0] == 'j',
        "js"@[1] == 's',
        "ts"@.len() == 2,
        "ts"@[0] == 't',
        "ts"@[1] == 's',
        "html"@.len() == 4,
        "html"@[0] == 'h',
        "html"@[1] == 't',
        "html"@[2] == 'm',
        "html"@[3] == 'l',
        "css"@.len() == 3,
        "css"@[0] == 'c',
        "css"@[1] == 's',
        "css"@[2] == 's',
        "cpp"@.len() == 3,
        "cpp"@[0] == 'c',
        "cpp"@[1] == 'p',
        "cpp"@[2] == 'p',
        "c"@.len() == 1,
        "c"@[0] == 'c',
        "h"@.len() == 1,
        "h"@[0] == 'h',
        "java"@.len() == 4,
        "java"@[0] == 'j',
        "java"@[1] == 'a',
        "java"@[2] == 'v',
        "java"@[3] == 'a',
        "year"@.len() == 4,
        "year"@[0] == 'y',
        "year"@[1] == 'e',
        "year"@[2] == 'a',
        "year"@[3] == 'r',
        "month"@.len() == 5,
        "month"@[0] == 'm',
        "month"@[1] == 'o',
        "month"@[2] == 'n',
        "month"@[3] == 't',
        "month"@[4] == 'h',
        "day"@.len() == 3,
        "day"@[0] == 'd',
        "day"@[1] == 'a',
        "day"@[2] == 'y',
{
    reveal_strlit("jpg");
    reveal_strlit("jpeg");
    reveal_strlit("png");
    reveal_strlit("gif");
    reveal_strlit("bmp");
    reveal_strlit("tiff");
    reveal_strlit("svg");
    reveal_strlit("webp");
    reveal_strlit("ico");
    reveal_strlit("pdf");
    reveal_strlit("doc");
    reveal_strlit("docx");
    reveal_strlit("txt");
    reveal_strlit("rtf");
    reveal_strlit("odt");
    reveal_strlit("pages");
    reveal_strlit("rs");
    reveal_strlit("py");
    reveal_strlit("js");
    reveal_strlit("ts");
    reveal_strlit("html");
    reveal_strlit("css");
    reveal_strlit("cpp");
    reveal_strlit("c");
    reveal_strlit("h");
    reveal_strlit("java");
    reveal_strlit("year");
    reveal_strlit("month");
    reveal_strlit("day");
}

/// The place of an extension in the default settings, or -1.
pub open spec fn default_position(key: Seq<char>) -> int {
    if key == "jpg"@ {
        0
    } else if key == "jpeg"@ {
        1
    } else if key == "png"@ {
        2
    } else if key == "gif"@ {
        3
    } else if key == "bmp"@ {
        4
    } else if key == "tiff"@ {
        5
    } else if key == "svg"@ {
        6
    } else if key == "webp"@ {
        7
    } else if key == "ico"@ {
        8
    } else if key == "pdf"@ {
        9
    } else if key == "doc"@ {
        10
    } else if key == "docx"@ {
        11
    } else if key == "txt"@ {
        12
    } else if key == "rtf"@ {
        13
    } else if key == "odt"@ {
        14
    } else if key == "pages"@ {
        15
    } else if key == "rs"@ {
        16
    } else if key == "py"@ {
        17
    } else if key == "js"@ {
        18
    } else if key == "ts"@ {
        19
    } else if key == "html"@ {
        20
    } else if key == "css"@ {
        21
    } else if key == "cpp"@ {
        22
    } else if key == "c"@ {
        23
    } else if key == "h"@ {
        24
    } else if key == "java"@ {
        25
    } else {
        -1
    }
}

/// In the default settings no extension and no date format is listed twice.
pub proof fn lemma_default_keys_are_distinct()
    ensures
        has_distinct_keys(default_mappings()),
        has_distinct_keys(default_date_formats()),
{
    reveal_default_texts();
    let table = default_mappings();
    assert(table.len() == 26);
    assert forall|i: int| 0 <= i < table.len() implies default_position(
        (#[trigger] table[i]).0,
    ) == i by {
        if i == 0 {
            assert(table[0].0 == "jpg"@);
            assert(default_position("jpg"@) == 0);
        } else if i == 1 {
            assert(table[1].0 == "jpeg"@);
            assert(default_position("jpeg"@) == 1);
        } else if i == 2 {
            assert(table[2].0 == "png"@);
            assert(default_position("png"@) == 2);
        } else if i == 3 {
            assert(table[3].0 == "gif"@);
            assert(default_position("gif"@) == 3);
        } else if i == 4 {
            assert(table[4].0 == "bmp"@);
            assert(default_position("bmp"@) == 4);
        } else if i == 5 {
            assert(table[5].0 == "tiff"@);
            assert(default_position("tiff"@) == 5);
        } else if i == 6 {
            assert(table[6].0 == "svg"@);
            assert(default_position("svg"@) == 6);
        } else if i == 7 {
            assert(table[7].0 == "webp"@);
            assert(default_position("webp"@) == 7);
        } else if i == 8 {
            assert(table[8].0 == "ico"@);
            assert(default_position("ico"@) == 8);
        } else if i == 9 {
            assert(table[9].0 == "pdf"@);
            assert(default_position("pdf"@) == 9);
        } else if i == 10 {
            assert(table[10].0 == "doc"@);
            assert(default_position("doc"@) == 10);
        } else if i == 11 {
            assert(table[11].0 == "docx"@);
            assert(default_position("docx"@) == 11);
        } else if i == 12 {
            assert(table[12].0 == "txt"@);
            assert(default_position("txt"@) == 12);
        } else if i == 13 {
            assert(table[13].0 == "rtf"@);
            assert(default_position("rtf"@) == 13);
        } else if i == 14 {
            assert(table[14].0 == "odt"@);
            assert(default_position("odt"@) == 14);
        } else if i == 15 {
            assert(table[15].0 == "pages"@);
            assert(default_position("pages"@) == 15);
        } else if i == 16 {
            assert(table[16].0 == "rs"@);
            assert(default_position("rs"@) == 16);
        } else if i == 17 {
            assert(table[17].0 == "py"@);
            assert(default_position("py"@) == 17);
        } else if i == 18 {
            assert(table[18].0 == "js"@);
            assert(default_position("js"@) == 18);
        } else if i == 19 {
            assert(table[19].0 == "ts"@);
            assert(default_position("ts"@) == 19);
        } else if i == 20 {
            assert(table[20].0 == "html"@);
            assert(default_position("html"@) == 20);
        } else if i == 21 {
            assert(table[21].0 == "css"@);
            assert(default_position("css"@) == 21);
        } else if i == 22 {
            assert(table[22].0 == "cpp"@);
            assert(default_position("cpp"@) == 22);
        } else if i == 23 {
            assert(table[23].0 == "c"@);
            assert(default_position("c"@) == 23);
        } else if i == 24 {
            assert(table[24].0 == "h"@);
            assert(default_position("h"@) == 24);
        } else if i == 25 {
            assert(table[25].0 == "java"@);
            assert(default_position("java"@) == 25);
        }
    }
    assert forall|i: int, j: int| 0 <= i < j < table.len() implies table[i].0 != table[j].0 by {
        assert(default_position(table[i].0) == i);
        assert(default_position(table[j].0) == j);
    }
}

/// The default date formats are the three selectors, each with the pattern
/// that dates are written with under it.
pub proof fn lemma_default_formats_are_the_patterns()
    ensures
        default_date_formats() == seq![
            (format_selector(DateFormat::Year), format_pattern(DateFormat::Year)),
            (format_selector(DateFormat::Month), format_pattern(DateFormat::Month)),
            (format_selector(DateFormat::Day), format_pattern(DateFormat::Day)),
        ],
{
}

impl Default for Config {
    /// The default settings.
    fn default() -> (config: Config)
        ensures
            config.is_default(),
            config.well_formed(),
    {
        proof {
            lemma_default_keys_are_distinct();
        }
        Config {
            file_type_mappings: default_file_type_mappings(),
            ignore_patterns: default_patterns(),
            date_formats: default_formats(),
        }
    }
}

impl Config {
    /// The settings that a new settings file starts from.
    pub fn generate_default() -> (config: Config)
        ensures
            config.is_default(),
            config.well_formed(),
    {
        proof {
            lemma_default_keys_are_distinct();
        }
        Config {
            file_type_mappings: default_file_type_mappings(),
            ignore_patterns: default_patterns(),
            date_formats: default_formats(),
        }
    }
}

} // verus!

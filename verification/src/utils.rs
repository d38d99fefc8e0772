//! The two pure helpers of the organizer: the folder that an extension is
//! filed under, and the human-readable form of a byte count.

use vstd::prelude::*;
use vstd::string::*;
use crate::text::{decimal, lowercase, push_decimal, str_eq, uppercase};

verus! {

/// Lowercase extensions of pictures.
pub open spec fn is_image(e: Seq<char>) -> bool {
    e == "jpg"@
    || e == "jpeg"@
    || e == "png"@
    || e == "gif"@
    || e == "bmp"@
    || e == "tiff"@
    || e == "svg"@
    || e == "webp"@
    || e == "ico"@
}

/// Lowercase extensions of written documents.
pub open spec fn is_document(e: Seq<char>) -> bool {
    e == "pdf"@
    || e == "doc"@
    || e == "docx"@
    || e == "txt"@
    || e == "rtf"@
    || e == "odt"@
    || e == "pages"@
}

/// Lowercase extensions of spreadsheets.
pub open spec fn is_spreadsheet(e: Seq<char>) -> bool {
    e == "xls"@
    || e == "xlsx"@
    || e == "csv"@
    || e == "ods"@
    || e == "numbers"@
}

/// Lowercase extensions of slide decks.
pub open spec fn is_presentation(e: Seq<char>) -> bool {
    e == "ppt"@
    || e == "pptx"@
    || e == "odp"@
    || e == "key"@
}

/// Lowercase extensions of video.
pub open spec fn is_video(e: Seq<char>) -> bool {
    e == "mp4"@
    || e == "avi"@
    || e == "mkv"@
    || e == "mov"@
    || e == "wmv"@
    || e == "flv"@
    || e == "webm"@
    || e == "m4v"@
    || e == "3gp"@
}

/// Lowercase extensions of sound.
pub open spec fn is_audio(e: Seq<char>) -> bool {
    e == "mp3"@
    || e == "wav"@
    || e == "flac"@
    || e == "aac"@
    || e == "ogg"@
    || e == "wma"@
    || e == "m4a"@
}

/// Lowercase extensions of archives and disk images.
pub open spec fn is_archive(e: Seq<char>) -> bool {
    e == "zip"@
    || e == "rar"@
    || e == "7z"@
    || e == "tar"@
    || e == "gz"@
    || e == "bz2"@
    || e == "xz"@
    || e == "dmg"@
    || e == "iso"@
}

/// Lowercase extensions of source code, markup and settings.
pub open spec fn is_code(e: Seq<char>) -> bool {
    e == "rs"@
    || e == "py"@
    || e == "js"@
    || e == "ts"@
    || e == "html"@
    || e == "css"@
    || e == "cpp"@
    || e == "c"@
    || e == "h"@
    || e == "java"@
    || e == "go"@
    || e == "php"@
    || e == "rb"@
    || e == "swift"@
    || e == "kt"@
    || e == "cs"@
    || e == "vb"@
    || e == "sql"@
    || e == "sh"@
    || e == "bat"@
    || e == "ps1"@
    || e == "json"@
    || e == "xml"@
    || e == "yaml"@
    || e == "yml"@
    || e == "toml"@
    || e == "ini"@
    || e == "cfg"@
}

/// Lowercase extensions of installers and executables.
pub open spec fn is_application(e: Seq<char>) -> bool {
    e == "exe"@
    || e == "msi"@
    || e == "deb"@
    || e == "rpm"@
    || e == "pkg"@
    || e == "app"@
}

/// Lowercase extensions of fonts.
pub open spec fn is_font(e: Seq<char>) -> bool {
    e == "ttf"@
    || e == "otf"@
    || e == "woff"@
    || e == "woff2"@
    || e == "eot"@
}

/// Lowercase extensions of 3D models and drawings.
pub open spec fn is_model(e: Seq<char>) -> bool {
    e == "obj"@
    || e == "fbx"@
    || e == "dae"@
    || e == "3ds"@
    || e == "blend"@
    || e == "max"@
    || e == "dwg"@
    || e == "dxf"@
}

/// Lowercase extensions of electronic books.
pub open spec fn is_ebook(e: Seq<char>) -> bool {
    e == "epub"@
    || e == "mobi"@
    || e == "azw"@
    || e == "azw3"@
    || e == "fb2"@
}

/// What stands for a missing extension: the empty text, or the word `unknown`.
pub open spec fn is_absent(e: Seq<char>) -> bool {
    e == "unknown"@
    || e == ""@
}

fn is_image_ext(e: &str) -> (r: bool)
    ensures
        r == is_image(e@),
{
    str_eq(e, "jpg")
    || str_eq(e, "jpeg")
    || str_eq(e, "png")
    || str_eq(e, "gif")
    || str_eq(e, "bmp")
    || str_eq(e, "tiff")
    || str_eq(e, "svg")
    || str_eq(e, "webp")
    || str_eq(e, "ico")
}

fn is_document_ext(e: &str) -> (r: bool)
    ensures
        r == is_document(e@),
{
    str_eq(e, "pdf")
    || str_eq(e, "doc")
    || str_eq(e, "docx")
    || str_eq(e, "txt")
    || str_eq(e, "rtf")
    || str_eq(e, "odt")
    || str_eq(e, "pages")
}

fn is_spreadsheet_ext(e: &str) -> (r: bool)
    ensures
        r == is_spreadsheet(e@),
{
    str_eq(e, "xls")
    || str_eq(e, "xlsx")
    || str_eq(e, "csv")
    || str_eq(e, "ods")
    || str_eq(e, "numbers")
}

fn is_presentation_ext(e: &str) -> (r: bool)
    ensures
        r == is_presentation(e@),
{
    str_eq(e, "ppt")
    || str_eq(e, "pptx")
    || str_eq(e, "odp")
    || str_eq(e, "key")
}

fn is_video_ext(e: &str) -> (r: bool)
    ensures
        r == is_video(e@),
{
    str_eq(e, "mp4")
    || str_eq(e, "avi")
    || str_eq(e, "mkv")
    || str_eq(e, "mov")
    || str_eq(e, "wmv")
    || str_eq(e, "flv")
    || str_eq(e, "webm")
    || str_eq(e, "m4v")
    || str_eq(e, "3gp")
}

fn is_audio_ext(e: &str) -> (r: bool)
    ensures
        r == is_audio(e@),
{
    str_eq(e, "mp3")
    || str_eq(e, "wav")
    || str_eq(e, "flac")
    || str_eq(e, "aac")
    || str_eq(e, "ogg")
    || str_eq(e, "wma")
    || str_eq(e, "m4a")
}

fn is_archive_ext(e: &str) -> (r: bool)
    ensures
        r == is_archive(e@),
{
    str_eq(e, "zip")
    || str_eq(e, "rar")
    || str_eq(e, "7z")
    || str_eq(e, "tar")
    || str_eq(e, "gz")
    || str_eq(e, "bz2")
    || str_eq(e, "xz")
    || str_eq(e, "dmg")
    || str_eq(e, "iso")
}

fn is_code_ext(e: &str) -> (r: bool)
    ensures
        r == is_code(e@),
{
    str_eq(e, "rs")
    || str_eq(e, "py")
    || str_eq(e, "js")
    || str_eq(e, "ts")
    || str_eq(e, "html")
    || str_eq(e, "css")
    || str_eq(e, "cpp")
    || str_eq(e, "c")
    || str_eq(e, "h")
    || str_eq(e, "java")
    || str_eq(e, "go")
    || str_eq(e, "php")
    || str_eq(e, "rb")
    || str_eq(e, "swift")
    || str_eq(e, "kt")
    || str_eq(e, "cs")
    || str_eq(e, "vb")
    || str_eq(e, "sql")
    || str_eq(e, "sh")
    || str_eq(e, "bat")
    || str_eq(e, "ps1")
    || str_eq(e, "json")
    || str_eq(e, "xml")
    || str_eq(e, "yaml")
    || str_eq(e, "yml")
    || str_eq(e, "toml")
    || str_eq(e, "ini")
    || str_eq(e, "cfg")
}

fn is_application_ext(e: &str) -> (r: bool)
    ensures
        r == is_application(e@),
{
    str_eq(e, "exe")
    || str_eq(e, "msi")
    || str_eq(e, "deb")
    || str_eq(e, "rpm")
    || str_eq(e, "pkg")
    || str_eq(e, "app")
}

fn is_font_ext(e: &str) -> (r: bool)
    ensures
        r == is_font(e@),
{
    str_eq(e, "ttf")
    || str_eq(e, "otf")
    || str_eq(e, "woff")
    || str_eq(e, "woff2")
    || str_eq(e, "eot")
}

fn is_model_ext(e: &str) -> (r: bool)
    ensures
        r == is_model(e@),
{
    str_eq(e, "obj")
    || str_eq(e, "fbx")
    || str_eq(e, "dae")
    || str_eq(e, "3ds")
    || str_eq(e, "blend")
    || str_eq(e, "max")
    || str_eq(e, "dwg")
    || str_eq(e, "dxf")
}

fn is_ebook_ext(e: &str) -> (r: bool)
    ensures
        r == is_ebook(e@),
{
    str_eq(e, "epub")
    || str_eq(e, "mobi")
    || str_eq(e, "azw")
    || str_eq(e, "azw3")
    || str_eq(e, "fb2")
}

fn is_absent_ext(e: &str) -> (r: bool)
    ensures
        r == is_absent(e@),
{
    str_eq(e, "unknown")
    || str_eq(e, "")
}

/// The folder that the table lists for a lowercase extension, if any.
pub open spec fn table_folder(e: Seq<char>) -> Option<Seq<char>> {
    if is_image(e) {
        Some("Images"@)
    } else if is_document(e) {
        Some("Documents"@)
    } else if is_spreadsheet(e) {
        Some("Spreadsheets"@)
    } else if is_presentation(e) {
        Some("Presentations"@)
    } else if is_video(e) {
        Some("Videos"@)
    } else if is_audio(e) {
        Some("Audio"@)
    } else if is_archive(e) {
        Some("Archives"@)
    } else if is_code(e) {
        Some("Code"@)
    } else if is_application(e) {
        Some("Applications"@)
    } else if is_font(e) {
        Some("Fonts"@)
    } else if is_model(e) {
        Some("3D-Models"@)
    } else if is_ebook(e) {
        Some("eBooks"@)
    } else if is_absent(e) {
        Some("Others"@)
    } else {
        None
    }
}

/// The folder that an extension is filed under. The table is consulted with
/// the lowercase form; an extension that it does not list gets a folder of
/// its own, named by its uppercase form.
pub open spec fn folder_name(extension: Seq<char>) -> Seq<char> {
    match table_folder(lowercase(extension)) {
        Some(label) => label,
        None => uppercase(extension) + "-Files"@,
    }
}

/// Looks a lowercase extension up in the table.
pub fn lookup_folder(lowered: &str) -> (found: Option<&'static str>)
    ensures
        match found {
            Some(label) => table_folder(lowered@) == Some(label@),
            None => table_folder(lowered@) is None,
        },
{
    if is_image_ext(lowered) {
        Some("Images")
    } else if is_document_ext(lowered) {
        Some("Documents")
    } else if is_spreadsheet_ext(lowered) {
        Some("Spreadsheets")
    } else if is_presentation_ext(lowered) {
        Some("Presentations")
    } else if is_video_ext(lowered) {
        Some("Videos")
    } else if is_audio_ext(lowered) {
        Some("Audio")
    } else if is_archive_ext(lowered) {
        Some("Archives")
    } else if is_code_ext(lowered) {
        Some("Code")
    } else if is_application_ext(lowered) {
        Some("Applications")
    } else if is_font_ext(lowered) {
        Some("Fonts")
    } else if is_model_ext(lowered) {
        Some("3D-Models")
    } else if is_ebook_ext(lowered) {
        Some("eBooks")
    } else if is_absent_ext(lowered) {
        Some("Others")
    } else {
        None
    }
}

/// The folder of an extension that the table does not list, from the
/// uppercase form of the extension.
pub fn own_folder(uppered: String) -> (folder: String)
    ensures
        folder@ == uppered@ + "-Files"@,
{
    let mut folder = uppered;
    folder.append("-Files");
    folder
}

/// Maps a file extension to the name of the folder it is filed under.
pub fn get_file_type_folder(extension: &str) -> (folder: String)
    ensures
        folder@ == folder_name(extension@),
{
    let lowered = extension.to_lowercase();
    match lookup_folder(lowered.as_str()) {
        Some(label) => label.to_owned(),
        None => own_folder(extension.to_uppercase()),
    }
}

/// Lays the lengths of the listed extensions open.
proof fn reveal_table_lengths()
    ensures
        "jpg"@.len() == 3,
        "jpeg"@.len() == 4,
        "png"@.len() == 3,
        "gif"@.len() == 3,
        "bmp"@.len() == 3,
        "tiff"@.len() == 4,
        "svg"@.len() == 3,
        "webp"@.len() == 4,
        "ico"@.len() == 3,
        "pdf"@.len() == 3,
        "doc"@.len() == 3,
        "docx"@.len() == 4,
        "txt"@.len() == 3,
        "rtf"@.len() == 3,
        "odt"@.len() == 3,
        "pages"@.len() == 5,
        "xls"@.len() == 3,
        "xlsx"@.len() == 4,
        "csv"@.len() == 3,
        "ods"@.len() == 3,
        "numbers"@.len() == 7,
        "ppt"@.len() == 3,
        "pptx"@.len() == 4,
        "odp"@.len() == 3,
        "key"@.len() == 3,
        "mp4"@.len() == 3,
        "avi"@.len() == 3,
        "mkv"@.len() == 3,
        "mov"@.len() == 3,
        "wmv"@.len() == 3,
        "flv"@.len() == 3,
        "webm"@.len() == 4,
        "m4v"@.len() == 3,
        "3gp"@.len() == 3,
        "mp3"@.len() == 3,
        "wav"@.len() == 3,
        "flac"@.len() == 4,
        "aac"@.len() == 3,
        "ogg"@.len() == 3,
        "wma"@.len() == 3,
        "m4a"@.len() == 3,
        "zip"@.len() == 3,
        "rar"@.len() == 3,
        "7z"@.len() == 2,
        "tar"@.len() == 3,
        "gz"@.len() == 2,
        "bz2"@.len() == 3,
        "xz"@.len() == 2,
        "dmg"@.len() == 3,
        "iso"@.len() == 3,
        "rs"@.len() == 2,
        "py"@.len() == 2,
        "js"@.len() == 2,
        "ts"@.len() == 2,
        "html"@.len() == 4,
        "css"@.len() == 3,
        "cpp"@.len() == 3,
        "c"@.len() == 1,
        "h"@.len() == 1,
        "java"@.len() == 4,
        "go"@.len() == 2,
        "php"@.len() == 3,
        "rb"@.len() == 2,
        "swift"@.len() == 5,
        "kt"@.len() == 2,
        "cs"@.len() == 2,
        "vb"@.len() == 2,
        "sql"@.len() == 3,
        "sh"@.len() == 2,
        "bat"@.len() == 3,
        "ps1"@.len() == 3,
        "json"@.len() == 4,
        "xml"@.len() == 3,
        "yaml"@.len() == 4,
        "yml"@.len() == 3,
        "toml"@.len() == 4,
        "ini"@.len() == 3,
        "cfg"@.len() == 3,
        "exe"@.len() == 3,
        "msi"@.len() == 3,
        "deb"@.len() == 3,
        "rpm"@.len() == 3,
        "pkg"@.len() == 3,
        "app"@.len() == 3,
        "ttf"@.len() == 3,
        "otf"@.len() == 3,
        "woff"@.len() == 4,
        "woff2"@.len() == 5,
        "eot"@.len() == 3,
        "obj"@.len() == 3,
        "fbx"@.len() == 3,
        "dae"@.len() == 3,
        "3ds"@.len() == 3,
        "blend"@.len() == 5,
        "max"@.len() == 3,
        "dwg"@.len() == 3,
        "dxf"@.len() == 3,
        "epub"@.len() == 4,
        "mobi"@.len() == 4,
        "azw"@.len() == 3,
        "azw3"@.len() == 4,
        "fb2"@.len() == 3,
        "unknown"@.len() == 7,
        ""@.len() == 0,
        "numbers"@[0] == 'n',
        "unknown"@[0] == 'u',
{
    reveal_strlit("jpg");
    reveal_strlit("jpeg");
    reveal_strlit("png");
    reveal_strlit("gif");
    reveal_strlit("bmp");
    reveal_strlit("tiff");
    reveal_strlit("svg");
    reveal_strlit("webp");
    reveal_strlit("ico");
    reveal_strlit("pdf");
    reveal_strlit("doc");
    reveal_strlit("docx");
    reveal_strlit("txt");
    reveal_strlit("rtf");
    reveal_strlit("odt");
    reveal_strlit("pages");
    reveal_strlit("xls");
    reveal_strlit("xlsx");
    reveal_strlit("csv");
    reveal_strlit("ods");
    reveal_strlit("numbers");
    reveal_strlit("ppt");
    reveal_strlit("pptx");
    reveal_strlit("odp");
    reveal_strlit("key");
    reveal_strlit("mp4");
    reveal_strlit("avi");
    reveal_strlit("mkv");
    reveal_strlit("mov");
    reveal_strlit("wmv");
    reveal_strlit("flv");
    reveal_strlit("webm");
    reveal_strlit("m4v");
    reveal_strlit("3gp");
    reveal_strlit("mp3");
    reveal_strlit("wav");
    reveal_strlit("flac");
    reveal_strlit("aac");
    reveal_strlit("ogg");
    reveal_strlit("wma");
    reveal_strlit("m4a");
    reveal_strlit("zip");
    reveal_strlit("rar");
    reveal_strlit("7z");
    reveal_strlit("tar");
    reveal_strlit("gz");
    reveal_strlit("bz2");
    reveal_strlit("xz");
    reveal_strlit("dmg");
    reveal_strlit("iso");
    reveal_strlit("rs");
    reveal_strlit("py");
    reveal_strlit("js");
    reveal_strlit("ts");
    reveal_strlit("html");
    reveal_strlit("css");
    reveal_strlit("cpp");
    reveal_strlit("c");
    reveal_strlit("h");
    reveal_strlit("java");
    reveal_strlit("go");
    reveal_strlit("php");
    reveal_strlit("rb");
    reveal_strlit("swift");
    reveal_strlit("kt");
    reveal_strlit("cs");
    reveal_strlit("vb");
    reveal_strlit("sql");
    reveal_strlit("sh");
    reveal_strlit("bat");
    reveal_strlit("ps1");
    reveal_strlit("json");
    reveal_strlit("xml");
    reveal_strlit("yaml");
    reveal_strlit("yml");
    reveal_strlit("toml");
    reveal_strlit("ini");
    reveal_strlit("cfg");
    reveal_strlit("exe");
    reveal_strlit("msi");
    reveal_strlit("deb");
    reveal_strlit("rpm");
    reveal_strlit("pkg");
    reveal_strlit("app");
    reveal_strlit("ttf");
    reveal_strlit("otf");
    reveal_strlit("woff");
    reveal_strlit("woff2");
    reveal_strlit("eot");
    reveal_strlit("obj");
    reveal_strlit("fbx");
    reveal_strlit("dae");
    reveal_strlit("3ds");
    reveal_strlit("blend");
    reveal_strlit("max");
    reveal_strlit("dwg");
    reveal_strlit("dxf");
    reveal_strlit("epub");
    reveal_strlit("mobi");
    reveal_strlit("azw");
    reveal_strlit("azw3");
    reveal_strlit("fb2");
    reveal_strlit("unknown");
    reveal_strlit("");
}

/// The table files a missing extension under `Others`, whether it comes as
/// the empty text or as the word `unknown`.
pub proof fn lemma_missing_extension_is_others()
    ensures
        table_folder(""@) == Some("Others"@),
        table_folder("unknown"@) == Some("Others"@),
{
    reveal_table_lengths();
}

/// Spelling does not matter for a listed extension: two extensions with the
/// same lowercase form, which the table lists, are filed under the same
/// folder, the one that the table gives.
pub proof fn lemma_listed_folder_ignores_case(a: Seq<char>, b: Seq<char>)
    requires
        lowercase(a) == lowercase(b),
        table_folder(lowercase(a)) is Some,
    ensures
        folder_name(a) == folder_name(b),
        Some(folder_name(a)) == table_folder(lowercase(a)),
{
}

/// An extension whose lowercase form the table does not list is filed under
/// its uppercase form followed by `-Files`.
pub proof fn lemma_unlisted_folder(extension: Seq<char>)
    requires
        table_folder(lowercase(extension)) is None,
    ensures
        folder_name(extension) == uppercase(extension) + "-Files"@,
{
}

/// The unit that a size is shown in: 0 for bytes, then one step for each
/// factor of 1024 that the size reaches, up to 4.
pub open spec fn unit_index(n: nat) -> nat {
    if n < 1024 {
        0
    } else if n < 1_048_576 {
        1
    } else if n < 1_073_741_824 {
        2
    } else if n < 1_099_511_627_776 {
        3
    } else {
        4
    }
}

/// The number of bytes in one unit.
pub open spec fn unit_size(k: nat) -> nat {
    if k == 0 {
        1
    } else if k == 1 {
        1024
    } else if k == 2 {
        1_048_576
    } else if k == 3 {
        1_073_741_824
    } else {
        1_099_511_627_776
    }
}

/// The suffix of a unit.
pub open spec fn unit_name(k: nat) -> Seq<char> {
    if k == 0 {
        "B"@
    } else if k == 1 {
        "KB"@
    } else if k == 2 {
        "MB"@
    } else if k == 3 {
        "GB"@
    } else {
        "TB"@
    }
}

/// The quotient `num / den` rounded to the nearest whole number, a tie going
/// to the even neighbour.
pub open spec fn round_half_even(num: nat, den: nat) -> nat {
    let q = num / den;
    let r = num % den;
    if 2 * r < den || (2 * r == den && q % 2 == 0) {
        q
    } else {
        q + 1
    }
}

/// The distance between neighbouring sizes that are told apart. A size is
/// carried with 53 significant binary digits: below 2^53 every size is
/// told apart, and each further binary digit doubles the distance.
pub open spec fn spacing(n: nat) -> nat
    decreases n,
{
    if n < 9_007_199_254_740_992 {
        1
    } else {
        2 * spacing(n / 2)
    }
}

/// The size as it is carried: the nearest multiple of its spacing, a tie
/// going to the even multiple.
pub open spec fn carried(n: nat) -> nat {
    round_half_even(n, spacing(n)) * spacing(n)
}

/// The size in tenths of its unit, rounded to the nearest tenth, a tie going
/// to the even tenth.
pub open spec fn tenths(n: nat) -> nat {
    round_half_even(10 * carried(n), unit_size(unit_index(n)))
}

/// The text of a size: whole bytes below 1024, else one decimal digit in the
/// largest unit that the size reaches.
pub open spec fn size_text(n: nat) -> Seq<char> {
    let k = unit_index(n);
    if k == 0 {
        decimal(n) + " "@ + unit_name(k)
    } else {
        decimal(tenths(n) / 10) + "."@ + decimal(tenths(n) % 10) + " "@ + unit_name(k)
    }
}

fn unit_index_of(n: u64) -> (k: usize)
    ensures
        k == unit_index(n as nat),
{
    if n < 1024 {
        0
    } else if n < 1_048_576 {
        1
    } else if n < 1_073_741_824 {
        2
    } else if n < 1_099_511_627_776 {
        3
    } else {
        4
    }
}

fn unit_label(k: usize) -> (label: &'static str)
    ensures
        label@ == unit_name(k as nat),
{
    if k == 0 {
        "B"
    } else if k == 1 {
        "KB"
    } else if k == 2 {
        "MB"
    } else if k == 3 {
        "GB"
    } else {
        "TB"
    }
}

fn rounded_quotient(num: u128, den: u128) -> (r: u128)
    requires
        0 < den <= 0x1_0000_0000_0000_0000,
        num <= 0xffff_ffff_ffff_ffff_ffff,
    ensures
        r == round_half_even(num as nat, den as nat),
        r <= num / den + 1,
{
    let q: u128 = num / den;
    let r: u128 = num % den;
    assert(num / den <= num) by (nonlinear_arith)
        requires
            0 < den,
    ;
    if 2 * r < den || (2 * r == den && q % 2 == 0) {
        q
    } else {
        q + 1
    }
}

fn spacing_of(n: u64) -> (g: u64)
    ensures
        g == spacing(n as nat),
        1 <= g,
        g == 1 || g * 4_503_599_627_370_496 <= n,
    decreases n,
{
    if n < 9_007_199_254_740_992 {
        1
    } else {
        let half: u64 = spacing_of(n / 2);
        2 * half
    }
}

fn carried_of(n: u64) -> (m: u128)
    ensures
        m == carried(n as nat),
        m <= 0x2_0000_0000_0000_0000,
{
    let g: u64 = spacing_of(n);
    let count: u128 = rounded_quotient(n as u128, g as u128);
    assert(count * g <= 0x2_0000_0000_0000_0000) by (nonlinear_arith)
        requires
            0 < g,
            count <= (n as int) / (g as int) + 1,
            g <= n || g == 1,
            n <= 0xffff_ffff_ffff_ffff,
    ;
    count * (g as u128)
}

fn tenths_of(n: u64) -> (t: u64)
    requires
        n >= 1024,
    ensures
        t == tenths(n as nat),
{
    let m: u128 = carried_of(n);
    let k: usize = unit_index_of(n);
    let t: u128 = if k == 1 {
        rounded_quotient(10 * m, 1024)
    } else if k == 2 {
        rounded_quotient(10 * m, 1_048_576)
    } else if k == 3 {
        rounded_quotient(10 * m, 1_073_741_824)
    } else {
        rounded_quotient(10 * m, 1_099_511_627_776)
    };
    t as u64
}

/// Formats a file size in human-readable form.
pub fn format_file_size(size: u64) -> (text: String)
    ensures
        text@ == size_text(size as nat),
{
    let k: usize = unit_index_of(size);
    let mut text = String::new();
    if k == 0 {
        push_decimal(&mut text, size);
    } else {
        let t: u64 = tenths_of(size);
        push_decimal(&mut text, t / 10);
        text.append(".");
        push_decimal(&mut text, t % 10);
    }
    text.append(" ");
    text.append(unit_label(k));
    assert(text@ =~= size_text(size as nat));
    text
}

} // verus!

use vstd::prelude::*;

verus! {

/// Where the icon image comes from.
#[derive(Debug, Clone, Copy, PartialEq, Eq)]
pub enum IconSource {
    /// One of the bundled logos, by number.
    Builtin(u8),
    /// The configured custom file.
    Custom,
    /// A custom icon was chosen but no path was given.
    MissingCustomPath,
}

/// The icon source for an icon index: 0 and 1 are the bundled logos, 2 is the
/// custom file, and any other index falls back to the first logo.
pub fn icon_source(icon_index: u64, custom_path: &str) -> (r: IconSource)
    ensures
        icon_index == 0 ==> r == IconSource::Builtin(0),
        icon_index == 1 ==> r == IconSource::Builtin(1),
        icon_index == 2 && custom_path@.len() == 0 ==> r == IconSource::MissingCustomPath,
        icon_index == 2 && custom_path@.len() > 0 ==> r == IconSource::Custom,
        icon_index > 2 ==> r == IconSource::Builtin(0),
{
    if icon_index == 1 {
        IconSource::Builtin(1)
    } else if icon_index == 2 {
        if custom_path.unicode_len() == 0 {
            IconSource::MissingCustomPath
        } else {
            IconSource::Custom
        }
    } else {
        IconSource::Builtin(0)
    }
}

/// `c` with ASCII capitals turned into small letters.
pub open spec fn ascii_lower(c: char) -> char {
    if 'A' <= c && c <= 'Z' {
        (((c as u8) + 32) as u8) as char
    } else {
        c
    }
}

/// `a` equals the lower-case word `w`, ignoring ASCII case.
pub open spec fn same_ignoring_case(a: Seq<char>, w: Seq<char>) -> bool {
    a.len() == w.len() && forall|i: int| 0 <= i < a.len() ==> ascii_lower(#[trigger] a[i]) == w[i]
}

/// The extension names a supported image format: png, jpg, jpeg, gif, bmp, ico,
/// tiff, tif or webp, in any case.
pub open spec fn supported_extension(e: Seq<char>) -> bool {
    same_ignoring_case(e, seq!['p', 'n', 'g']) || same_ignoring_case(e, seq!['j', 'p', 'g'])
        || same_ignoring_case(e, seq!['j', 'p', 'e', 'g']) || same_ignoring_case(
        e,
        seq!['g', 'i', 'f'],
    ) || same_ignoring_case(e, seq!['b', 'm', 'p']) || same_ignoring_case(e, seq!['i', 'c', 'o'])
        || same_ignoring_case(e, seq!['t', 'i', 'f', 'f']) || same_ignoring_case(
        e,
        seq!['t', 'i', 'f'],
    ) || same_ignoring_case(e, seq!['w', 'e', 'b', 'p'])
}

fn lower(c: char) -> (r: char)
    ensures
        r == ascii_lower(c),
{
    if 'A' <= c && c <= 'Z' {
        ((c as u8) + 32) as char
    } else {
        c
    }
}

fn matches_word(ext: &str, word: &str) -> (r: bool)
    requires
        forall|i: int| 0 <= i < word@.len() ==> word@[i] == ascii_lower(#[trigger] word@[i]),
    ensures
        r == same_ignoring_case(ext@, word@),
{
    let n = ext.unicode_len();
    if n != word.unicode_len() {
        return false;
    }
    let mut i: usize = 0;
    while i < n
        invariant
            i <= n == ext@.len() == word@.len(),
            forall|j: int| 0 <= j < i ==> ascii_lower(#[trigger] ext@[j]) == word@[j],
        decreases n - i,
    {
        if lower(ext.get_char(i)) != word.get_char(i) {
            return false;
        }
        i = i + 1;
    }
    true
}

/// The extension (without its dot) names a supported image format, in any case.
pub fn is_supported_extension(ext: &str) -> (r: bool)
    ensures
        r == supported_extension(ext@),
{
    proof {
        reveal_strlit("png");
        reveal_strlit("jpg");
        reveal_strlit("jpeg");
        reveal_strlit("gif");
        reveal_strlit("bmp");
        reveal_strlit("ico");
        reveal_strlit("tiff");
        reveal_strlit("tif");
        reveal_strlit("webp");
    }
    matches_word(ext, "png") || matches_word(ext, "jpg") || matches_word(ext, "jpeg")
        || matches_word(ext, "gif") || matches_word(ext, "bmp") || matches_word(ext, "ico")
        || matches_word(ext, "tiff") || matches_word(ext, "tif") || matches_word(ext, "webp")
}

} // verus!

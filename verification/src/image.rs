//! Image detection and perceptual fingerprints.
//!
//! A pushed file counts as an image by its name's extension; for images the
//! push operation stores a compact perceptual fingerprint computed over a
//! fixed downsampled grid, usable for previews and similarity only.

use vstd::prelude::*;
use vstd::string::*;

verus! {

/// The position of the last `.` in the name, or -1 when there is none.
pub open spec fn last_dot_position(name: Seq<char>) -> int
    decreases name.len(),
{
    if name.len() == 0 {
        -1
    } else if name.last() == '.' {
        name.len() - 1
    } else {
        last_dot_position(name.drop_last())
    }
}

/// The position of the last `/` in the name, or -1 when there is none.
pub open spec fn last_slash_position(name: Seq<char>) -> int
    decreases name.len(),
{
    if name.len() == 0 {
        -1
    } else if name.last() == '/' {
        name.len() - 1
    } else {
        last_slash_position(name.drop_last())
    }
}

/// ASCII lower-casing of one character; anything but a capital letter is
/// left alone.
pub open spec fn lower_char(c: char) -> char {
    if c == 'A' {
        'a'
    } else if c == 'B' {
        'b'
    } else if c == 'C' {
        'c'
    } else if c == 'D' {
        'd'
    } else if c == 'E' {
        'e'
    } else if c == 'F' {
        'f'
    } else if c == 'G' {
        'g'
    } else if c == 'H' {
        'h'
    } else if c == 'I' {
        'i'
    } else if c == 'J' {
        'j'
    } else if c == 'K' {
        'k'
    } else if c == 'L' {
        'l'
    } else if c == 'M' {
        'm'
    } else if c == 'N' {
        'n'
    } else if c == 'O' {
        'o'
    } else if c == 'P' {
        'p'
    } else if c == 'Q' {
        'q'
    } else if c == 'R' {
        'r'
    } else if c == 'S' {
        's'
    } else if c == 'T' {
        't'
    } else if c == 'U' {
        'u'
    } else if c == 'V' {
        'v'
    } else if c == 'W' {
        'w'
    } else if c == 'X' {
        'x'
    } else if c == 'Y' {
        'y'
    } else if c == 'Z' {
        'z'
    } else {
        c
    }
}

/// The extensions treated as images.
pub open spec fn is_image_extension(ext: Seq<char>) -> bool {
    ||| ext == seq!['j', 'p', 'g']
    ||| ext == seq!['j', 'p', 'e', 'g']
    ||| ext == seq!['p', 'n', 'g']
    ||| ext == seq![' ']
}

/// Whether a path names an image file: its final component has an
/// extension — a `.` with at least one character of the component before
/// it — and the extension, lower-cased, is one of the image extensions.
pub open spec fn is_image_name(name: Seq<char>) -> bool {
    let dot = last_dot_position(name);
    let slash = last_slash_position(name);
    dot >= slash + 2 && is_image_extension(
        name.subrange(dot + 1, name.len() as int).map_values(|c: char| lower_char(c)),
    )
}

fn lower_ascii(c: char) -> (low: char)
    ensures
        low == lower_char(c),
{
    if 'A' <= c && c <= 'Z' {
        match c {
            'A' => 'a',
            'B' => 'b',
            'C' => 'c',
            'D' => 'd',
            'E' => 'e',
            'F' => 'f',
            'G' => 'g',
            'H' => 'h',
            'I' => 'i',
            'J' => 'j',
            'K' => 'k',
            'L' => 'l',
            'M' => 'm',
            'N' => 'n',
            'O' => 'o',
            'P' => 'p',
            'Q' => 'q',
            'R' => 'r',
            'S' => 's',
            'T' => 't',
            'U' => 'u',
            'V' => 'v',
            'W' => 'w',
            'X' => 'x',
            'Y' => 'y',
            _ => 'z',
        }
    } else {
        c
    }
}

/// Decides whether the path names an image file, by its extension alone —
/// never by the bytes.
pub fn is_image_file(file_path: &str) -> (is_image: bool)
    ensures
        is_image == is_image_name(file_path@),
{
    let n = file_path.unicode_len();
    let mut have_dot = false;
    let mut dot_pos: usize = 0;
    let mut have_slash = false;
    let mut slash_pos: usize = 0;
    for i in 0..n
        invariant
            n == file_path@.len(),
            have_dot ==> dot_pos < i && last_dot_position(file_path@.take(i as int))
                == dot_pos as int,
            !have_dot ==> last_dot_position(file_path@.take(i as int)) == -1,
            have_slash ==> slash_pos < i && last_slash_position(file_path@.take(i as int))
                == slash_pos as int,
            !have_slash ==> last_slash_position(file_path@.take(i as int)) == -1,
    {
        let c = file_path.get_char(i);
        proof {
            assert(file_path@.take(i + 1).drop_last() == file_path@.take(i as int));
            assert(file_path@.take(i + 1).last() == c);
        }
        if c == '.' {
            have_dot = true;
            dot_pos = i;
        } else if c == '/' {
            have_slash = true;
            slash_pos = i;
        }
    }
    proof {
        assert(file_path@.take(n as int) == file_path@);
    }
    if !have_dot {
        return false;
    }
    if have_slash {
        if dot_pos <= slash_pos || dot_pos - slash_pos < 2 {
            return false;
        }
    } else if dot_pos < 1 {
        return false;
    }
    let ghost ext = file_path@.subrange(dot_pos + 1, n as int).map_values(
        |c: char| lower_char(c),
    );
    let ext_len = n - dot_pos - 1;
    if ext_len == 3 {
        let c0 = lower_ascii(file_path.get_char(dot_pos + 1));
        let c1 = lower_ascii(file_path.get_char(dot_pos + 2));
        let c2 = lower_ascii(file_path.get_char(dot_pos + 3));
        let matched = (c0 == 'j' && c1 == 'p' && c2 == 'g') || (c0 == 'p' && c1 == 'n' && c2
            == 'g');
        proof {
            if matched {
                if c0 == 'j' {
                    assert(ext =~= seq!['j', 'p', 'g']);
                } else {
                    assert(ext =~= seq!['p', 'n', 'g']);
                }
            } else {
                assert(ext != seq!['j', 'p', 'g'] && ext != seq!['p', 'n', 'g']) by {
                    assert(ext[0] == c0 && ext[1] == c1 && ext[2] == c2);
                }
                assert(ext.len() == 3);
            }
        }
        matched
    } else if ext_len == 4 {
        let c0 = lower_ascii(file_path.get_char(dot_pos + 1));
        let c1 = lower_ascii(file_path.get_char(dot_pos + 2));
        let c2 = lower_ascii(file_path.get_char(dot_pos + 3));
        let c3 = lower_ascii(file_path.get_char(dot_pos + 4));
        let matched = c0 == 'j' && c1 == 'p' && c2 == 'e' && c3 == 'g';
        proof {
            if matched {
                assert(ext =~= seq!['j', 'p', 'e', 'g']);
            } else {
                assert(ext != seq!['j', 'p', 'e', 'g']) by {
                    assert(ext[0] == c0 && ext[1] == c1 && ext[2] == c2 && ext[3] == c3);
                }
                assert(ext.len() == 4);
            }
        }
        matched
    } else if ext_len == 1 {
        let c0 = lower_ascii(file_path.get_char(dot_pos + 1));
        let matched = c0 == ' ';
        proof {
            if matched {
                assert(ext =~= seq![' ']);
            } else {
                assert(ext != seq![' ']) by {
                    assert(ext[0] == c0);
                }
                assert(ext.len() == 1);
            }
        }
        matched
    } else {
        proof {
            assert(ext.len() == ext_len);
        }
        false
    }
}

/// The blurhash fingerprint of a pixel buffer, over the fixed 32-by-32
/// grid with 4-by-3 hash components; a function of the bytes alone.
pub uninterp spec fn blurhash_of(pixels: Seq<u8>) -> Seq<char>;

/// Relies on `blurhash::encode` called with components 4 and 3 over a
/// 32x32 pixel grid: component counts within 1..=9 are accepted, the
/// buffer is read only up to four bytes per grid cell, and the resulting
/// hash — one size flag, one maximum, four DC and eleven two-character AC
/// terms, 28 characters — depends on the pixel bytes alone.
#[verifier::external_body]
fn blurhash_encode_grid(pixels: &[u8]) -> (hash: String)
    requires
        pixels@.len() >= 4096,
    ensures
        hash@ == blurhash_of(pixels@),
        hash@.len() == 28,
{
    blurhash::encode(4, 3, 32, 32, pixels).unwrap()
}

/// Computes the perceptual fingerprint stored with an image entry: present
/// when the buffer holds a full 32-by-32 RGBA grid, absent when the buffer
/// is too small to sample.
pub fn generate_blurhash(image_data: &Vec<u8>) -> (result: Option<String>)
    ensures
        (match result {
            Some(hash) => image_data@.len() >= 4096 && hash@ == blurhash_of(image_data@)
                && hash@.len() == 28,
            None => image_data@.len() < 4096,
        }),
{
    if image_data.len() >= 4096 {
        Some(blurhash_encode_grid(image_data.as_slice()))
    } else {
        None
    }
}

} // verus!

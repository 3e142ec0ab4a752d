//! Which files of the photo library are photos, and how a photo's EXIF
//! orientation is undone.
use vstd::prelude::*;
use crate::daemon::{file_name, file_name_spec};
use crate::text::{ascii_lowercase_chars, ascii_lowercase_spec, chars_of, chars_equal};
use rand::rngs::StdRng;
use rand::seq::SliceRandom;

verus! {

/// Position of the last `.` in `name` before `end`, or -1.
pub open spec fn last_dot(name: Seq<char>, end: int) -> int
    decreases end,
{
    if end <= 0 {
        -1
    } else if name[end - 1] == '.' {
        end - 1
    } else {
        last_dot(name, end - 1)
    }
}

/// The extension of a file name, as `Path::extension` gives it: what follows
/// the last `.`, unless that `.` starts the name (or there is none).
pub open spec fn extension_spec(name: Seq<char>) -> Option<Seq<char>> {
    let k = last_dot(name, name.len() as int);
    if k <= 0 || name == seq!['.', '.'] {
        None
    } else {
        Some(name.subrange(k + 1, name.len() as int))
    }
}

/// The extensions the library shows, lowercase.
pub open spec fn supported_extension(ext: Seq<char>) -> bool {
    ext == "jpg"@ || ext == "jpeg"@ || ext == "png"@ || ext == "webp"@
}

/// Whether the file at `path` is a photo: its extension, in any case, is
/// `jpg`, `jpeg`, `png` or `webp`.
pub open spec fn is_image_spec(path: Seq<char>) -> bool {
    match file_name_spec(path) {
        Some(name) => match extension_spec(name) {
            Some(ext) => supported_extension(ascii_lowercase_spec(ext)),
            None => false,
        },
        None => false,
    }
}

proof fn lemma_last_dot_bounds(name: Seq<char>, end: int)
    requires
        0 <= end <= name.len(),
    ensures
        -1 <= last_dot(name, end) < end,
        last_dot(name, end) >= 0 ==> name[last_dot(name, end)] == '.',
    decreases end,
{
    if end > 0 && name[end - 1] != '.' {
        lemma_last_dot_bounds(name, end - 1);
    }
}

fn is_word(s: &Vec<char>, word: &str) -> (b: bool)
    ensures
        b == (s@ == word@),
{
    let w = chars_of(word);
    chars_equal(s.as_slice(), w.as_slice())
}

/// Whether the file at `path` is a photo the library shows.
pub fn is_image(path: &str) -> (b: bool)
    ensures
        b == is_image_spec(path@),
{
    let name = match file_name(path) {
        Some(n) => n,
        None => {
            return false;
        },
    };
    let mut end: usize = name.len();
    while end > 0 && name[end - 1] != '.'
        invariant
            end <= name@.len(),
            last_dot(name@, end as int) == last_dot(name@, name@.len() as int),
        decreases end,
    {
        end = end - 1;
    }
    proof {
        lemma_last_dot_bounds(name@, name@.len() as int);
    }
    if end <= 1 || (name.len() == 2 && name[0] == '.' && name[1] == '.') {
        proof {
            if name@.len() == 2 && name@[0] == '.' && name@[1] == '.' {
                assert(name@ =~= seq!['.', '.']);
            }
        }
        return false;
    }
    proof {
        if name@ == seq!['.', '.'] {
            assert(name@[0] == '.');
        }
    }
    let mut ext: Vec<char> = Vec::new();
    let mut i = end;
    while i < name.len()
        invariant
            end <= i <= name@.len(),
            ext@ == name@.subrange(end as int, i as int),
        decreases name.len() - i,
    {
        ext.push(name[i]);
        i = i + 1;
    }
    let lower = ascii_lowercase_chars(&ext);
    is_word(&lower, "jpg") || is_word(&lower, "jpeg") || is_word(&lower, "png") || is_word(&lower, "webp")
}

/// What to do to a decoded photo so that it shows upright.
#[derive(Debug, Clone, Copy, PartialEq, Eq, Structural)]
pub enum OrientationFix {
    /// Already upright (also for unknown orientations).
    Keep,
    FlipHorizontal,
    Rotate180,
    FlipVertical,
    /// Rotate 90° clockwise, then flip horizontally.
    Rotate90FlipHorizontal,
    Rotate90,
    /// Rotate 270° clockwise, then flip horizontally.
    Rotate270FlipHorizontal,
    Rotate270,
}

/// The correction for the EXIF orientation tag value `orientation`.
pub open spec fn orientation_fix_spec(orientation: u16) -> OrientationFix {
    if orientation == 2 {
        OrientationFix::FlipHorizontal
    } else if orientation == 3 {
        OrientationFix::Rotate180
    } else if orientation == 4 {
        OrientationFix::FlipVertical
    } else if orientation == 5 {
        OrientationFix::Rotate90FlipHorizontal
    } else if orientation == 6 {
        OrientationFix::Rotate90
    } else if orientation == 7 {
        OrientationFix::Rotate270FlipHorizontal
    } else if orientation == 8 {
        OrientationFix::Rotate270
    } else {
        OrientationFix::Keep
    }
}

/// The correction for an EXIF orientation (1 = upright; 2 to 8 the mirrored
/// and rotated cases; anything else is left as it is).
pub fn orientation_fix(orientation: u16) -> (f: OrientationFix)
    ensures
        f == orientation_fix_spec(orientation),
{
    match orientation {
        2 => OrientationFix::FlipHorizontal,
        3 => OrientationFix::Rotate180,
        4 => OrientationFix::FlipVertical,
        5 => OrientationFix::Rotate90FlipHorizontal,
        6 => OrientationFix::Rotate90,
        7 => OrientationFix::Rotate270FlipHorizontal,
        8 => OrientationFix::Rotate270,
        _ => OrientationFix::Keep,
    }
}

/// The photos among `paths`, in order.
pub open spec fn images_of(paths: Seq<String>) -> Seq<String>
    decreases paths.len(),
{
    if paths.len() == 0 {
        Seq::empty()
    } else if is_image_spec(paths.last()@) {
        images_of(paths.drop_last()).push(paths.last())
    } else {
        images_of(paths.drop_last())
    }
}

/// Puts `paths` in a random order with `rand`'s `SliceRandom::shuffle`.
///
/// The crate swaps elements in place (Fisher–Yates), so the result is a
/// rearrangement of `paths`; which one depends on the generator's state, and
/// no clause says which.
#[verifier::external_body]
fn shuffle_paths(paths: &mut Vec<String>, rng: &mut StdRng)
    ensures
        final(paths)@.to_multiset() == old(paths)@.to_multiset(),
{
    paths.shuffle(rng);
}

/// The photos of the startup scan in the order they are first scheduled:
/// the files among `candidates` that are photos, shuffled with `rng`.
pub fn startup_order(candidates: Vec<String>, rng: &mut StdRng) -> (r: Vec<String>)
    ensures
        r@.to_multiset() == images_of(candidates@).to_multiset(),
{
    let mut images: Vec<String> = Vec::new();
    let mut i: usize = 0;
    while i < candidates.len()
        invariant
            0 <= i <= candidates@.len(),
            images@ == images_of(candidates@.subrange(0, i as int)),
        decreases candidates.len() - i,
    {
        proof {
            assert(candidates@.subrange(0, i + 1).drop_last() == candidates@.subrange(0, i as int));
        }
        if is_image(candidates[i].as_str()) {
            images.push(candidates[i].clone());
        }
        i = i + 1;
    }
    proof {
        assert(candidates@.subrange(0, candidates@.len() as int) == candidates@);
    }
    shuffle_paths(&mut images, rng);
    images
}

} // verus!

//! Where the sweep's files go: one directory per source image, one file per
//! variant, and the contact sheet beside them.

use vstd::prelude::*;
use vstd::string::*;
use crate::text::{decimal, lemma_decimal_injective, lemma_decimal_is_plain, push_decimal};

verus! {

/// A directory and a name below it, as one path. A name that starts at the
/// root stands alone; an empty directory adds nothing; otherwise a single
/// `/` parts the two.
pub open spec fn joined(dir: Seq<char>, name: Seq<char>) -> Seq<char> {
    if name.len() > 0 && name[0] == '/' {
        name
    } else if dir.len() == 0 {
        name
    } else if dir.last() == '/' {
        dir + name
    } else {
        dir + seq!['/'] + name
    }
}

/// The name of a variant, without extension: `blur_<radius>_darken_<level>`.
pub open spec fn variant_name(radius: int, level: int) -> Seq<char> {
    "blur_"@ + decimal(radius) + "_darken_"@ + decimal(level)
}

/// The file name of a variant: its name with the extension `.png`.
pub open spec fn variant_file(radius: int, level: int) -> Seq<char> {
    variant_name(radius, level) + ".png"@
}

/// The path of a variant's file below `dir`.
pub open spec fn image_output_path(dir: Seq<char>, radius: int, level: int) -> Seq<char> {
    joined(dir, variant_file(radius, level))
}

/// The path of the contact sheet below `dir`.
pub open spec fn summary_path(dir: Seq<char>) -> Seq<char> {
    joined(dir, "summary.png"@)
}

/// Joins a directory and a name below it.
pub fn join_path(dir: &str, name: &str) -> (path: String)
    ensures
        path@ == joined(dir@, name@),
{
    let name_len: usize = name.unicode_len();
    if name_len > 0 && name.get_char(0) == '/' {
        return String::from_str(name);
    }
    let dir_len: usize = dir.unicode_len();
    if dir_len == 0 {
        return String::from_str(name);
    }
    let mut path = String::from_str(dir);
    if dir.get_char(dir_len - 1) != '/' {
        path.push('/');
    }
    path.append(name);
    path
}

/// The file name of a variant.
pub fn variant_file_name(blur: i32, darken: u8) -> (name: String)
    ensures
        name@ == variant_file(blur as int, darken as int),
{
    let mut name = String::from_str("blur_");
    push_decimal(&mut name, blur as i64);
    name.append("_darken_");
    push_decimal(&mut name, darken as i64);
    name.append(".png");
    name
}

/// The extensions of the files that are taken for images.
pub open spec fn is_image_extension(extension: Seq<char>) -> bool {
    extension == "png"@ || extension == "jpg"@ || extension == "jpeg"@
}

/// Whether a directory entry is an image to process: a regular file whose
/// name ends in `png`, `jpg` or `jpeg`, in lower case.
pub fn check_file_type_is_image(is_file: bool, extension: Option<&str>) -> (is_image: bool)
    ensures
        is_image <==> is_file && extension is Some && is_image_extension(extension->Some_0@),
{
    if !is_file {
        return false;
    }
    match extension {
        Some(e) => {
            let found = String::from_str(e);
            found == String::from_str("png") || found == String::from_str("jpg") || found
                == String::from_str("jpeg")
        },
        None => false,
    }
}

/// Two variant names are equal only if radius and level are.
pub proof fn lemma_variant_name_injective(r1: int, l1: int, r2: int, l2: int)
    requires
        variant_name(r1, l1) == variant_name(r2, l2),
    ensures
        r1 == r2,
        l1 == l2,
{
    reveal_strlit("blur_");
    reveal_strlit("_darken_");
    let p = "blur_"@;
    let m = "_darken_"@;
    let a1 = decimal(r1);
    let a2 = decimal(r2);
    let b1 = decimal(l1);
    let b2 = decimal(l2);
    let s1 = variant_name(r1, l1);
    let s2 = variant_name(r2, l2);
    lemma_decimal_is_plain(r1);
    lemma_decimal_is_plain(r2);
    assert(p.len() == 5);
    assert(m.len() == 8);
    assert(m[0] == '_');
    assert(s1.len() == 5 + a1.len() + 8 + b1.len());
    assert(s2.len() == 5 + a2.len() + 8 + b2.len());
    if a1.len() < a2.len() {
        let k = a1.len() as int;
        assert(s1[5 + k] == m[0]);
        assert(s2[5 + k] == a2[k]);
        assert(false);
    }
    if a2.len() < a1.len() {
        let k = a2.len() as int;
        assert(s2[5 + k] == m[0]);
        assert(s1[5 + k] == a1[k]);
        assert(false);
    }
    assert forall|k: int| 0 <= k < a1.len() implies a1[k] == a2[k] by {
        assert(s1[5 + k] == a1[k]);
        assert(s2[5 + k] == a2[k]);
    }
    assert(a1 =~= a2);
    assert(b1.len() == b2.len());
    assert forall|k: int| 0 <= k < b1.len() implies b1[k] == b2[k] by {
        assert(s1[5 + a1.len() + 8 + k] == b1[k]);
        assert(s2[5 + a2.len() + 8 + k] == b2[k]);
    }
    assert(b1 =~= b2);
    lemma_decimal_injective(r1, r2);
    lemma_decimal_injective(l1, l2);
}

/// Below one directory, two variants have the same path only if they have
/// the same radius and the same level.
pub proof fn lemma_image_output_path_injective(
    dir: Seq<char>,
    r1: int,
    l1: int,
    r2: int,
    l2: int,
)
    requires
        image_output_path(dir, r1, l1) == image_output_path(dir, r2, l2),
    ensures
        r1 == r2,
        l1 == l2,
{
    reveal_strlit("blur_");
    reveal_strlit(".png");
    let first_name = variant_name(r1, l1);
    let second_name = variant_name(r2, l2);
    let first_file = variant_file(r1, l1);
    let second_file = variant_file(r2, l2);
    let first_path = image_output_path(dir, r1, l1);
    let second_path = image_output_path(dir, r2, l2);
    assert(first_file[0] == 'b');
    assert(second_file[0] == 'b');
    let skip: int = if dir.len() == 0 {
        0
    } else if dir.last() == '/' {
        dir.len() as int
    } else {
        dir.len() as int + 1
    };
    assert(first_path.len() == skip + first_file.len());
    assert(second_path.len() == skip + second_file.len());
    assert forall|k: int| 0 <= k < first_name.len() implies first_name[k] == second_name[k] by {
        assert(first_path[skip + k] == first_file[k]);
        assert(second_path[skip + k] == second_file[k]);
    }
    assert(first_name =~= second_name);
    lemma_variant_name_injective(r1, l1, r2, l2);
}

} // verus!

//! Paths as text: the final component of a path, the device namespace, and
//! the quoted form in which a path is written into the manifest.

use vstd::prelude::*;
use crate::text::{lemma_split_join, same_text, split, split_text, starts_with, views};

verus! {

/// Whether a piece between two separators names nothing: it is empty (two
/// separators in a row, or one at either end) or the current directory.
pub open spec fn is_skipped(piece: Seq<char>) -> bool {
    piece.len() == 0 || piece == "."@
}

/// The last piece that names something, if there is one.
pub open spec fn last_component(pieces: Seq<Seq<char>>) -> Option<Seq<char>>
    decreases pieces.len(),
{
    if pieces.len() == 0 {
        None
    } else if is_skipped(pieces.last()) {
        last_component(pieces.drop_last())
    } else {
        Some(pieces.last())
    }
}

/// The base name of a path: its last component between `/` separators that
/// is neither empty nor `.`, unless that component is `..` or there is none.
/// So `/tmp/cfg.json`, `cfg.json`, `/tmp/cfg.json/` and `/tmp/cfg.json/.` all
/// have the base name `cfg.json`, while `/`, `.`, the empty path and
/// `/tmp/..` have none.
pub open spec fn base_name_of(path: Seq<char>) -> Option<Seq<char>> {
    match last_component(split(path, '/')) {
        Some(name) => if name == ".."@ {
            None
        } else {
            Some(name)
        },
        None => None,
    }
}

/// Whether a token lies in the device namespace: it begins with `/dev`.
pub open spec fn is_device_path(token: Seq<char>) -> bool {
    "/dev"@.is_prefix_of(token)
}

/// The text that stands for a path inside the manifest: the path between
/// double quotes, with the characters escaped that cannot stand for
/// themselves there.
pub uninterp spec fn quoted_path(path: Seq<char>) -> Seq<char>;

/// Writes a path in its quoted form.
///
/// Trusted: the body formats `std::path::Path` with `{:?}`, the `Debug`
/// implementation of the standard library. The contract claims only that
/// the text is a function of the path's characters, and calls it
/// `quoted_path`.
#[verifier::external_body]
pub(crate) fn quote_path(path: &str) -> (quoted: String)
    ensures
        quoted@ == quoted_path(path@),
{
    format!("{:?}", std::path::Path::new(path))
}

proof fn lemma_last_component(pieces: Seq<Seq<char>>)
    ensures
        (match last_component(pieces) {
            Some(name) => pieces.contains(name) && !is_skipped(name),
            None => true,
        }),
    decreases pieces.len(),
{
    if pieces.len() > 0 {
        if is_skipped(pieces.last()) {
            lemma_last_component(pieces.drop_last());
            match last_component(pieces) {
                Some(name) => {
                    let i = choose|i: int|
                        0 <= i < pieces.drop_last().len() && pieces.drop_last()[i] == name;
                    assert(pieces[i] == name);
                },
                None => {},
            }
        } else {
            assert(pieces[pieces.len() - 1] == pieces.last());
        }
    }
}

/// A base name is a single proper component: it is not empty, holds no
/// separator, and is neither `.` nor `..`.
pub proof fn lemma_base_name_is_component(path: Seq<char>)
    ensures
        (match base_name_of(path) {
            Some(name) => name.len() > 0 && !name.contains('/') && name != "."@ && name != ".."@,
            None => true,
        }),
{
    lemma_split_join(path, '/');
    lemma_last_component(split(path, '/'));
}

/// The base name of a path, if it has one.
pub fn base_name(path: &str) -> (name: Option<String>)
    ensures
        (match name {
            Some(n) => base_name_of(path@) == Some(n@),
            None => base_name_of(path@) is None,
        }),
{
    let pieces = split_text(path, '/');
    let mut i: usize = pieces.len();
    assert(views(pieces@).take(i as int) =~= views(pieces@));
    while i > 0
        invariant
            i <= pieces.len(),
            views(pieces@) == split(path@, '/'),
            last_component(views(pieces@)) == last_component(views(pieces@).take(i as int)),
        decreases i,
    {
        let piece = &pieces[i - 1];
        let ghost upto = views(pieces@).take(i as int);
        assert(upto.last() == piece@);
        assert(upto.drop_last() =~= views(pieces@).take(i - 1));
        if piece.as_str().is_empty() || same_text(piece.as_str(), ".") {
            i -= 1;
        } else if same_text(piece.as_str(), "..") {
            return None;
        } else {
            return Some(piece.clone());
        }
    }
    None
}

/// Tells whether a token lies in the device namespace.
pub fn in_device_namespace(token: &str) -> (device: bool)
    ensures
        device == is_device_path(token@),
{
    starts_with(token, "/dev")
}

} // verus!

//! Filling a template: one pass over the text that replaces every key of a
//! list of bindings by its value and copies everything else.
//!
//! The pass never looks at what it has written, so a value that happens to
//! hold a key is left as it is, and each occurrence of a key in the template
//! is replaced exactly once.

use vstd::prelude::*;
use crate::text::{chars_of, matches_at, push_char};

verus! {

/// A key and the value that replaces it.
#[derive(Debug, Clone, PartialEq, Eq)]
pub struct Binding {
    pub key: String,
    pub value: String,
}

/// The mathematical content of a `Binding`.
pub struct BindingView {
    pub key: Seq<char>,
    pub value: Seq<char>,
}

impl View for Binding {
    type V = BindingView;

    open spec fn view(&self) -> BindingView {
        BindingView { key: self.key@, value: self.value@ }
    }
}

/// The views of a list of bindings, in order.
pub open spec fn binding_views(bindings: Seq<Binding>) -> Seq<BindingView> {
    bindings.map_values(|binding: Binding| binding@)
}

/// Whether a binding applies at the start of `text`: its key is not empty
/// and `text` begins with it.
pub open spec fn applies(text: Seq<char>, binding: BindingView) -> bool {
    binding.key.len() > 0 && binding.key.is_prefix_of(text)
}

/// The first binding, in the order of the list, that applies at the start
/// of `text`.
pub open spec fn replacement_at(text: Seq<char>, bindings: Seq<BindingView>) -> Option<
    BindingView,
>
    decreases bindings.len(),
{
    if bindings.len() == 0 {
        None
    } else if applies(text, bindings[0]) {
        Some(bindings[0])
    } else {
        replacement_at(text, bindings.skip(1))
    }
}

/// The text with its keys replaced, read from the left: where a binding
/// applies, its value is written and its key is passed over; elsewhere one
/// character is copied.
pub open spec fn substitute(text: Seq<char>, bindings: Seq<BindingView>) -> Seq<char>
    decreases text.len(),
    via substitute_decreases
{
    if text.len() == 0 {
        Seq::empty()
    } else {
        match replacement_at(text, bindings) {
            Some(binding) => binding.value + substitute(
                text.skip(binding.key.len() as int),
                bindings,
            ),
            None => seq![text[0]] + substitute(text.skip(1), bindings),
        }
    }
}

#[via_fn]
proof fn substitute_decreases(text: Seq<char>, bindings: Seq<BindingView>) {
    lemma_replacement_applies(text, bindings);
}

/// The binding that is found at a position applies there, and it is the
/// first of the list that does.
pub proof fn lemma_replacement_applies(text: Seq<char>, bindings: Seq<BindingView>)
    ensures
        (match replacement_at(text, bindings) {
            Some(binding) => applies(text, binding) && exists|j: int|
                0 <= j < bindings.len() && bindings[j] == binding && forall|k: int|
                    0 <= k < j ==> !applies(text, #[trigger] bindings[k]),
            None => forall|k: int|
                0 <= k < bindings.len() ==> !applies(text, #[trigger] bindings[k]),
        }),
    decreases bindings.len(),
{
    if bindings.len() > 0 && !applies(text, bindings[0]) {
        let rest = bindings.skip(1);
        lemma_replacement_applies(text, rest);
        match replacement_at(text, rest) {
            Some(binding) => {
                let j = choose|j: int|
                    0 <= j < rest.len() && rest[j] == binding && forall|k: int|
                        0 <= k < j ==> !applies(text, #[trigger] rest[k]);
                assert(bindings[j + 1] == binding);
                assert forall|k: int| 0 <= k < j + 1 implies !applies(
                    text,
                    #[trigger] bindings[k],
                ) by {
                    if k > 0 {
                        assert(rest[k - 1] == bindings[k]);
                    }
                }
            },
            None => {
                assert forall|k: int| 0 <= k < bindings.len() implies !applies(
                    text,
                    #[trigger] bindings[k],
                ) by {
                    if k > 0 {
                        assert(rest[k - 1] == bindings[k]);
                    }
                }
            },
        }
    } else if bindings.len() > 0 {
        assert(bindings[0] == bindings[0]);
    }
}

/// Whether no binding applies at any of the first `n` positions of `text`.
pub open spec fn plain_prefix(text: Seq<char>, n: int, bindings: Seq<BindingView>) -> bool {
    forall|i: int| 0 <= i < n ==> (#[trigger] replacement_at(text.skip(i), bindings)) is None
}

/// Text in front of the first key is copied: where no binding applies at
/// any position of `plain`, filling `plain + rest` gives `plain` followed by
/// the filled `rest`.
pub proof fn lemma_substitute_plain(plain: Seq<char>, rest: Seq<char>, bindings: Seq<BindingView>)
    requires
        plain_prefix(plain + rest, plain.len() as int, bindings),
    ensures
        substitute(plain + rest, bindings) == plain + substitute(rest, bindings),
    decreases plain.len(),
{
    let text = plain + rest;
    if plain.len() == 0 {
        assert(text =~= rest);
        assert(plain + substitute(rest, bindings) =~= substitute(rest, bindings));
    } else {
        assert(text.skip(0) =~= text);
        assert(replacement_at(text.skip(0), bindings) is None);
        let tail = plain.skip(1);
        assert(text.skip(1) =~= tail + rest);
        assert forall|i: int| 0 <= i < tail.len() implies (#[trigger] replacement_at(
            (tail + rest).skip(i),
            bindings,
        )) is None by {
            assert((tail + rest).skip(i) =~= text.skip(i + 1));
        }
        lemma_substitute_plain(tail, rest, bindings);
        assert(seq![text[0]] + (tail + substitute(rest, bindings)) =~= plain + substitute(
            rest,
            bindings,
        ));
    }
}

/// A key is replaced by its value: where `binding` is the one found at the
/// start of `binding.key + rest`, filling that text gives the value followed
/// by the filled `rest`.
pub proof fn lemma_substitute_key(binding: BindingView, rest: Seq<char>, bindings: Seq<BindingView>)
    requires
        replacement_at(binding.key + rest, bindings) == Some(binding),
    ensures
        substitute(binding.key + rest, bindings) == binding.value + substitute(rest, bindings),
{
    let text = binding.key + rest;
    lemma_replacement_applies(text, bindings);
    assert(text.skip(binding.key.len() as int) =~= rest);
}

/// Without bindings nothing is replaced.
pub proof fn lemma_substitute_nothing(text: Seq<char>)
    ensures
        substitute(text, Seq::<BindingView>::empty()) == text,
    decreases text.len(),
{
    if text.len() > 0 {
        lemma_substitute_nothing(text.skip(1));
        assert(seq![text[0]] + text.skip(1) =~= text);
    }
}

/// Finds the first binding whose key stands at `pos`.
fn find_binding(text: &Vec<char>, pos: usize, keys: &Vec<Vec<char>>, Ghost(bindings): Ghost<
    Seq<BindingView>,
>) -> (found: Option<usize>)
    requires
        pos < text.len(),
        keys.len() == bindings.len(),
        forall|j: int| 0 <= j < keys.len() ==> (#[trigger] keys[j])@ == bindings[j].key,
    ensures
        (match found {
            Some(j) => j < keys.len() && replacement_at(text@.skip(pos as int), bindings) == Some(
                bindings[j as int],
            ),
            None => replacement_at(text@.skip(pos as int), bindings) is None,
        }),
{
    let ghost here = text@.skip(pos as int);
    let mut j: usize = 0;
    assert(bindings.skip(0) =~= bindings);
    while j < keys.len()
        invariant
            j <= keys.len(),
            pos < text.len(),
            here == text@.skip(pos as int),
            keys.len() == bindings.len(),
            forall|j: int| 0 <= j < keys.len() ==> (#[trigger] keys[j])@ == bindings[j].key,
            replacement_at(here, bindings) == replacement_at(here, bindings.skip(j as int)),
        decreases keys.len() - j,
    {
        let key = &keys[j];
        let ghost left = bindings.skip(j as int);
        assert(left[0] == bindings[j as int]);
        assert(left.skip(1) =~= bindings.skip(j + 1));
        let stands = key.len() > 0 && matches_at(text, pos, key);
        proof {
            if key.len() > 0 && key.len() <= here.len() {
                assert(here.subrange(0, key.len() as int) =~= text@.subrange(
                    pos as int,
                    pos + key.len(),
                ));
            }
            assert(stands == applies(here, bindings[j as int]));
        }
        if stands {
            return Some(j);
        }
        j += 1;
    }
    None
}

/// Fills a template: replaces every key by its value in one pass from the
/// left and copies the rest. Where several keys stand at one position, the
/// binding that comes first in the list wins. A binding with an empty key
/// never applies.
pub fn fill(template: &str, bindings: &Vec<Binding>) -> (out: String)
    ensures
        out@ == substitute(template@, binding_views(bindings@)),
{
    let text = chars_of(template);
    let ghost views = binding_views(bindings@);
    let mut keys: Vec<Vec<char>> = Vec::new();
    let mut j: usize = 0;
    while j < bindings.len()
        invariant
            j <= bindings.len(),
            keys.len() == j,
            views == binding_views(bindings@),
            forall|k: int| 0 <= k < j ==> (#[trigger] keys[k])@ == views[k].key,
        decreases bindings.len() - j,
    {
        keys.push(chars_of(bindings[j].key.as_str()));
        j += 1;
    }
    let mut out = String::new();
    let mut pos: usize = 0;
    assert(text@.skip(0) =~= text@);
    while pos < text.len()
        invariant
            pos <= text.len(),
            keys.len() == bindings.len(),
            views == binding_views(bindings@),
            forall|k: int| 0 <= k < keys.len() ==> (#[trigger] keys[k])@ == views[k].key,
            out@ + substitute(text@.skip(pos as int), views) == substitute(text@, views),
        decreases text.len() - pos,
    {
        let ghost here = text@.skip(pos as int);
        let ghost written = out@;
        proof {
            lemma_replacement_applies(here, views);
        }
        match find_binding(&text, pos, &keys, Ghost(views)) {
            Some(j) => {
                let ghost binding = views[j as int];
                out.append(bindings[j].value.as_str());
                assert(here.skip(binding.key.len() as int) =~= text@.skip(pos + binding.key.len()));
                assert(written + (binding.value + substitute(
                    here.skip(binding.key.len() as int),
                    views,
                )) =~= out@ + substitute(text@.skip(pos + binding.key.len()), views));
                pos += keys[j].len();
            },
            None => {
                push_char(&mut out, text[pos]);
                assert(here.skip(1) =~= text@.skip(pos + 1));
                assert(written + (seq![here[0]] + substitute(here.skip(1), views)) =~= out@
                    + substitute(text@.skip(pos + 1), views));
                pos += 1;
            },
        }
    }
    assert(out@ + Seq::<char>::empty() =~= out@);
    out
}

} // verus!

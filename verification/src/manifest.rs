//! Rendering of the manifest: the base template with its slots filled,
//! followed by the declarations that the snapshot tooling reads.

use vstd::prelude::*;
use crate::arguments::{
    classify_all, classify_arguments, copy_instructions, final_arguments, probe_views,
    rewritten_arguments, staged_copies, token_views, tokenize, truncation_for, truncation_of,
    argument_tokens, has_placeholder, ArgumentToken, ManifestError, PathProbe, PathProbeView,
    TokenView, TruncationSpec, TruncationView,
};
use crate::config::{CommandLineArgs, InvocationView};
use crate::decimal::{decimal_text, push_decimal};
use crate::template::{
    applies, binding_views, fill, lemma_replacement_applies, lemma_substitute_key,
    lemma_substitute_plain, replacement_at, substitute, Binding, BindingView,
};
use crate::text::{join, join_strings, occurs_at};

verus! {

/// The slot for the packages to install.
pub const KEY_PACKAGES: &'static str = "$PACKAGES$";

/// The slot for the path of the binary outside the image.
pub const KEY_BINARY: &'static str = "$BINARY$";

/// The slot for the line that creates the input file.
pub const KEY_TRUNCATE: &'static str = "$TRUNCATE$";

/// The slot for the copy instructions of the staged files.
pub const KEY_FILES: &'static str = "$FILES$";

/// The slot for the base name of the binary.
pub const KEY_BINARY_NAME: &'static str = "$BINARYNAME$";

/// The template up to the packages slot: the base image and the packages
/// that are always installed.
pub const BASE_SECTION: &'static str = "\n###################################################\n#### Ubuntu root FS\nFROM ubuntu:jammy as base\nRUN apt-get update -q \\\n  && apt-get install -q -y build-essential clang gdb python3 ";

/// The template between the packages slot and the binary slot.
pub const INSTALL_SECTION: &'static str = " \\\n  && apt-get clean -y \\\n  && rm -rf /var/lib/apt/lists/*\n\n# Copy binary into the root\nCOPY ";

/// The template between the binary slot and the truncation slot: where the
/// binary is copied to.
pub const BINARY_TARGET: &'static str = " /opt/\n";

/// The end of a line.
pub const LINE_END: &'static str = "\n";

/// The template between the files slot and the binary name slot: the
/// snapshot image and the entry point inside the staging directory.
pub const SNAPSHOT_SECTION: &'static str = "\n\n###################################################\nFROM ctfhacker/snapchange_snapshot\n\nCOPY --from=base / \"$SNAPSHOT_INPUT\"\n\nENV SNAPSHOT_ENTRYPOINT=/opt/";

/// The text in front of the truncation size.
pub const TRUNCATE_COMMAND: &'static str = "RUN truncate -s ";

/// The declaration of the break function, up to its value.
pub const FUNCTION_DECLARATION: &'static str = "ENV SNAPSHOT_FUNCTION=";

/// The declaration of the image kind, up to its value.
pub const IMAGE_DECLARATION: &'static str = "ENV SNAPSHOT_IMGTYPE=";

/// The declaration of the arguments, up to and with the opening quote.
pub const ARGUMENTS_DECLARATION: &'static str = "ENV SNAPSHOT_ENTRYPOINT_ARGUMENTS=\"";

/// The closing quote of the arguments and the end of their line.
pub const ARGUMENTS_END: &'static str = "\"\n";

/// The rendered manifest.
#[derive(Debug, Clone, PartialEq, Eq)]
pub struct RenderedManifest {
    /// The text of the manifest.
    pub text: String,
}

impl View for RenderedManifest {
    type V = Seq<char>;

    open spec fn view(&self) -> Seq<char> {
        self.text@
    }
}

/// The values that fill the slots of the template.
pub struct SlotValues {
    pub packages: Seq<char>,
    pub binary: Seq<char>,
    pub truncation: Seq<char>,
    pub files: Seq<char>,
    pub binary_name: Seq<char>,
}

/// The base template: fixed text with one occurrence of each slot.
pub open spec fn base_template_text() -> Seq<char> {
    BASE_SECTION@ + KEY_PACKAGES@ + INSTALL_SECTION@ + KEY_BINARY@ + BINARY_TARGET@ + KEY_TRUNCATE@
        + LINE_END@ + KEY_FILES@ + SNAPSHOT_SECTION@ + KEY_BINARY_NAME@ + LINE_END@
}

/// The base template with each slot replaced by its value.
pub open spec fn filled_template(slots: SlotValues) -> Seq<char> {
    BASE_SECTION@ + slots.packages + INSTALL_SECTION@ + slots.binary + BINARY_TARGET@
        + slots.truncation + LINE_END@ + slots.files + SNAPSHOT_SECTION@ + slots.binary_name
        + LINE_END@
}

/// The bindings of the slots to their values, in the order in which the
/// slots stand in the base template.
pub open spec fn slot_bindings(slots: SlotValues) -> Seq<BindingView> {
    seq![
        BindingView { key: KEY_PACKAGES@, value: slots.packages },
        BindingView { key: KEY_BINARY@, value: slots.binary },
        BindingView { key: KEY_TRUNCATE@, value: slots.truncation },
        BindingView { key: KEY_FILES@, value: slots.files },
        BindingView { key: KEY_BINARY_NAME@, value: slots.binary_name },
    ]
}

/// The line that creates the input file; empty where none is asked for.
pub open spec fn truncation_directive_of(truncation: Option<TruncationView>) -> Seq<char> {
    match truncation {
        Some(truncation) => TRUNCATE_COMMAND@ + decimal_text(truncation.size as nat) + " "@
            + truncation.target,
        None => Seq::empty(),
    }
}

/// The copy instructions of the staged files, one per line.
pub open spec fn copy_block_of(tokens: Seq<TokenView>) -> Seq<char> {
    join(copy_instructions(tokens), LINE_END@)
}

/// The declaration of the arguments: one line that holds them separated by
/// single spaces and quoted as one value, and nothing at all where there
/// are no arguments.
pub open spec fn arguments_declaration(arguments: Seq<Seq<char>>) -> Seq<char> {
    if arguments.len() == 0 {
        Seq::empty()
    } else {
        ARGUMENTS_DECLARATION@ + join(arguments, " "@) + ARGUMENTS_END@
    }
}

/// The declarations that follow the template: the break function, the kind
/// of image, and the arguments if there are any.
pub open spec fn declarations(args: InvocationView, tokens: Seq<TokenView>) -> Seq<char> {
    FUNCTION_DECLARATION@ + args.break_function() + LINE_END@ + IMAGE_DECLARATION@
        + args.image_kind().name_text() + LINE_END@ + arguments_declaration(
        rewritten_arguments(tokens),
    )
}

/// The values of the slots for a request whose binary has the base name
/// `binary_name`.
pub open spec fn slots_of(
    args: InvocationView,
    binary_name: Seq<char>,
    tokens: Seq<TokenView>,
    truncation: Option<TruncationView>,
) -> SlotValues {
    SlotValues {
        packages: args.package_list(),
        binary: args.binary,
        truncation: truncation_directive_of(truncation),
        files: copy_block_of(tokens),
        binary_name,
    }
}

/// The manifest that a template gives: the template with the slots filled
/// in one pass, followed by the declarations. There is none where the binary
/// has no base name.
pub open spec fn manifest_from(
    template: Seq<char>,
    args: InvocationView,
    tokens: Seq<TokenView>,
    truncation: Option<TruncationView>,
) -> Result<Seq<char>, ManifestError> {
    match args.binary_name() {
        Some(name) => Ok(
            substitute(template, slot_bindings(slots_of(args, name, tokens, truncation)))
                + declarations(args, tokens),
        ),
        None => Err(ManifestError::MissingBinaryName),
    }
}

/// The manifest: the base template with each slot replaced by its value,
/// followed by the declarations. There is none where the binary has no base
/// name.
pub open spec fn manifest_text(
    args: InvocationView,
    tokens: Seq<TokenView>,
    truncation: Option<TruncationView>,
) -> Result<Seq<char>, ManifestError> {
    match args.binary_name() {
        Some(name) => Ok(
            filled_template(slots_of(args, name, tokens, truncation)) + declarations(args, tokens),
        ),
        None => Err(ManifestError::MissingBinaryName),
    }
}

/// The manifest that a request and what the file system says about its
/// tokens lead to. A binary without a base name is reported first, then a
/// wrong number of probes, then a staged file without a base name.
pub open spec fn derived_manifest(args: InvocationView, probes: Seq<PathProbeView>) -> Result<
    Seq<char>,
    ManifestError,
> {
    if args.binary_name() is None {
        Err(ManifestError::MissingBinaryName)
    } else {
        match classify_all(argument_tokens(args.arguments), probes) {
            Ok(tokens) => manifest_text(args, tokens, truncation_of(tokens, args.input_file_size)),
            Err(e) => Err(e),
        }
    }
}

/// The characters of the five slot keys.
proof fn lemma_key_texts()
    ensures
        KEY_PACKAGES@ == seq!['$', 'P', 'A', 'C', 'K', 'A', 'G', 'E', 'S', '$'],
        KEY_BINARY@ == seq!['$', 'B', 'I', 'N', 'A', 'R', 'Y', '$'],
        KEY_TRUNCATE@ == seq!['$', 'T', 'R', 'U', 'N', 'C', 'A', 'T', 'E', '$'],
        KEY_FILES@ == seq!['$', 'F', 'I', 'L', 'E', 'S', '$'],
        KEY_BINARY_NAME@ == seq!['$', 'B', 'I', 'N', 'A', 'R', 'Y', 'N', 'A', 'M', 'E', '$'],
{
    reveal_strlit("$PACKAGES$");
    reveal_strlit("$BINARY$");
    reveal_strlit("$TRUNCATE$");
    reveal_strlit("$FILES$");
    reveal_strlit("$BINARYNAME$");
    assert(KEY_PACKAGES@ =~= seq!['$', 'P', 'A', 'C', 'K', 'A', 'G', 'E', 'S', '$']);
    assert(KEY_BINARY@ =~= seq!['$', 'B', 'I', 'N', 'A', 'R', 'Y', '$']);
    assert(KEY_TRUNCATE@ =~= seq!['$', 'T', 'R', 'U', 'N', 'C', 'A', 'T', 'E', '$']);
    assert(KEY_FILES@ =~= seq!['$', 'F', 'I', 'L', 'E', 'S', '$']);
    assert(KEY_BINARY_NAME@ =~= seq!['$', 'B', 'I', 'N', 'A', 'R', 'Y', 'N', 'A', 'M', 'E', '$']);
}

/// Whether no slot key can begin inside `piece`: a `$` occurs in it only in
/// front of an `S`, which no key has in second place.
spec fn slot_free(piece: Seq<char>) -> bool {
    forall|i: int|
        0 <= i < piece.len() ==> (#[trigger] piece[i]) != '$' || (i + 1 < piece.len() && piece[i
            + 1] == 'S')
}

proof fn lemma_sections_slot_free()
    ensures
        slot_free(BASE_SECTION@),
        slot_free(INSTALL_SECTION@),
        slot_free(BINARY_TARGET@),
        slot_free(LINE_END@),
        slot_free(SNAPSHOT_SECTION@),
{
    reveal_strlit("\n###################################################\n#### Ubuntu root FS\nFROM ubuntu:jammy as base\nRUN apt-get update -q \\\n  && apt-get install -q -y build-essential clang gdb python3 ");
    reveal_strlit(" \\\n  && apt-get clean -y \\\n  && rm -rf /var/lib/apt/lists/*\n\n# Copy binary into the root\nCOPY ");
    reveal_strlit(" /opt/\n");
    reveal_strlit("\n");
    reveal_strlit("\n\n###################################################\nFROM ctfhacker/snapchange_snapshot\n\nCOPY --from=base / \"$SNAPSHOT_INPUT\"\n\nENV SNAPSHOT_ENTRYPOINT=/opt/");
    assert(SNAPSHOT_SECTION@[111] == 'S');
}

/// No slot key stands at the start of a text that begins with anything but
/// `$`, or with `$S`.
proof fn lemma_no_slot_at(text: Seq<char>, slots: SlotValues)
    requires
        text.len() > 0,
        text[0] != '$' || (text.len() > 1 && text[1] == 'S'),
    ensures
        replacement_at(text, slot_bindings(slots)) is None,
{
    let bindings = slot_bindings(slots);
    lemma_key_texts();
    lemma_replacement_applies(text, bindings);
    assert forall|j: int| 0 <= j < bindings.len() implies !applies(
        text,
        #[trigger] bindings[j],
    ) by {
        let key = bindings[j].key;
        if applies(text, bindings[j]) {
            assert(text.subrange(0, key.len() as int)[0] == key[0]);
            assert(text.subrange(0, key.len() as int)[1] == key[1]);
        }
    }
}

/// A section of the template is copied as it is.
proof fn lemma_section_copied(piece: Seq<char>, rest: Seq<char>, slots: SlotValues)
    requires
        slot_free(piece),
    ensures
        substitute(piece + rest, slot_bindings(slots)) == piece + substitute(
            rest,
            slot_bindings(slots),
        ),
{
    let bindings = slot_bindings(slots);
    assert forall|i: int| 0 <= i < piece.len() implies (#[trigger] replacement_at(
        (piece + rest).skip(i),
        bindings,
    )) is None by {
        let here = (piece + rest).skip(i);
        assert(here[0] == piece[i]);
        if i + 1 < piece.len() {
            assert(here[1] == piece[i + 1]);
        }
        lemma_no_slot_at(here, slots);
    }
    lemma_substitute_plain(piece, rest, bindings);
}

/// A text that begins with one key does not begin with another that
/// differs from it at position `at`.
proof fn lemma_other_key(other: Seq<char>, key: Seq<char>, rest: Seq<char>, at: int)
    requires
        0 <= at < other.len(),
        at < key.len(),
        other[at] != key[at],
    ensures
        !other.is_prefix_of(key + rest),
{
    if other.is_prefix_of(key + rest) {
        assert((key + rest).subrange(0, other.len() as int)[at] == (key + rest)[at]);
    }
}

/// Each slot of the template is replaced by its value.
proof fn lemma_slot_filled(j: int, rest: Seq<char>, slots: SlotValues)
    requires
        0 <= j < 5,
    ensures
        substitute(slot_bindings(slots)[j].key + rest, slot_bindings(slots)) == slot_bindings(
            slots,
        )[j].value + substitute(rest, slot_bindings(slots)),
{
    let bindings = slot_bindings(slots);
    let key = bindings[j].key;
    let text = key + rest;
    lemma_key_texts();
    lemma_replacement_applies(text, bindings);
    assert(text.subrange(0, key.len() as int) =~= key);
    assert(applies(text, bindings[j]));
    assert forall|k: int| 0 <= k < 5 && k != j implies !applies(text, #[trigger] bindings[k]) by {
        if (k == 1 && j == 4) || (k == 4 && j == 1) {
            lemma_other_key(bindings[k].key, key, rest, 7);
        } else {
            lemma_other_key(bindings[k].key, key, rest, 1);
        }
    }
    assert(replacement_at(text, bindings) == Some(bindings[j]));
    lemma_substitute_key(bindings[j], rest, bindings);
}

/// Eleven pieces written one after the other, grouped from the right.
proof fn lemma_regroup(
    a0: Seq<char>,
    a1: Seq<char>,
    a2: Seq<char>,
    a3: Seq<char>,
    a4: Seq<char>,
    a5: Seq<char>,
    a6: Seq<char>,
    a7: Seq<char>,
    a8: Seq<char>,
    a9: Seq<char>,
    a10: Seq<char>,
)
    ensures
        a0 + a1 + a2 + a3 + a4 + a5 + a6 + a7 + a8 + a9 + a10 == a0 + (a1 + (a2 + (a3 + (a4 + (a5
            + (a6 + (a7 + (a8 + (a9 + a10))))))))),
{
    let t9 = a9 + a10;
    let t8 = a8 + t9;
    let t7 = a7 + t8;
    let t6 = a6 + t7;
    let t5 = a5 + t6;
    let t4 = a4 + t5;
    let t3 = a3 + t4;
    let t2 = a2 + t3;
    let t1 = a1 + t2;
    let l1 = a0 + a1;
    let l2 = l1 + a2;
    let l3 = l2 + a3;
    let l4 = l3 + a4;
    let l5 = l4 + a5;
    let l6 = l5 + a6;
    let l7 = l6 + a7;
    let l8 = l7 + a8;
    let l9 = l8 + a9;
    assert(l1 + t2 =~= a0 + t1);
    assert(l2 + t3 =~= l1 + t2);
    assert(l3 + t4 =~= l2 + t3);
    assert(l4 + t5 =~= l3 + t4);
    assert(l5 + t6 =~= l4 + t5);
    assert(l6 + t7 =~= l5 + t6);
    assert(l7 + t8 =~= l6 + t7);
    assert(l8 + t9 =~= l7 + t8);
    assert(l9 + a10 =~= l8 + t9);
}

/// Filling the base template puts each value in the place of its slot and
/// leaves the rest of the template as it is.
pub proof fn lemma_base_template_filled(slots: SlotValues)
    ensures
        substitute(base_template_text(), slot_bindings(slots)) == filled_template(slots),
{
    let bindings = slot_bindings(slots);
    let t10 = LINE_END@;
    let t9 = KEY_BINARY_NAME@ + t10;
    let t8 = SNAPSHOT_SECTION@ + t9;
    let t7 = KEY_FILES@ + t8;
    let t6 = LINE_END@ + t7;
    let t5 = KEY_TRUNCATE@ + t6;
    let t4 = BINARY_TARGET@ + t5;
    let t3 = KEY_BINARY@ + t4;
    let t2 = INSTALL_SECTION@ + t3;
    let t1 = KEY_PACKAGES@ + t2;
    let t0 = BASE_SECTION@ + t1;
    let r10 = LINE_END@;
    let r9 = slots.binary_name + r10;
    let r8 = SNAPSHOT_SECTION@ + r9;
    let r7 = slots.files + r8;
    let r6 = LINE_END@ + r7;
    let r5 = slots.truncation + r6;
    let r4 = BINARY_TARGET@ + r5;
    let r3 = slots.binary + r4;
    let r2 = INSTALL_SECTION@ + r3;
    let r1 = slots.packages + r2;
    let r0 = BASE_SECTION@ + r1;
    assert(substitute(t10, bindings) == r10) by {
        lemma_sections_slot_free();
        lemma_section_copied(LINE_END@, Seq::empty(), slots);
        assert(LINE_END@ + Seq::<char>::empty() =~= LINE_END@);
    }
    assert(substitute(t9, bindings) == r9) by {
        lemma_slot_filled(4, t10, slots);
    }
    assert(substitute(t8, bindings) == r8) by {
        lemma_sections_slot_free();
        lemma_section_copied(SNAPSHOT_SECTION@, t9, slots);
    }
    assert(substitute(t7, bindings) == r7) by {
        lemma_slot_filled(3, t8, slots);
    }
    assert(substitute(t6, bindings) == r6) by {
        lemma_sections_slot_free();
        lemma_section_copied(LINE_END@, t7, slots);
    }
    assert(substitute(t5, bindings) == r5) by {
        lemma_slot_filled(2, t6, slots);
    }
    assert(substitute(t4, bindings) == r4) by {
        lemma_sections_slot_free();
        lemma_section_copied(BINARY_TARGET@, t5, slots);
    }
    assert(substitute(t3, bindings) == r3) by {
        lemma_slot_filled(1, t4, slots);
    }
    assert(substitute(t2, bindings) == r2) by {
        lemma_sections_slot_free();
        lemma_section_copied(INSTALL_SECTION@, t3, slots);
    }
    assert(substitute(t1, bindings) == r1) by {
        lemma_slot_filled(0, t2, slots);
    }
    assert(substitute(t0, bindings) == r0) by {
        lemma_sections_slot_free();
        lemma_section_copied(BASE_SECTION@, t1, slots);
    }
    assert(t0 == base_template_text()) by {
        lemma_regroup(
            BASE_SECTION@,
            KEY_PACKAGES@,
            INSTALL_SECTION@,
            KEY_BINARY@,
            BINARY_TARGET@,
            KEY_TRUNCATE@,
            LINE_END@,
            KEY_FILES@,
            SNAPSHOT_SECTION@,
            KEY_BINARY_NAME@,
            LINE_END@,
        );
    }
    assert(r0 == filled_template(slots)) by {
        lemma_regroup(
            BASE_SECTION@,
            slots.packages,
            INSTALL_SECTION@,
            slots.binary,
            BINARY_TARGET@,
            slots.truncation,
            LINE_END@,
            slots.files,
            SNAPSHOT_SECTION@,
            slots.binary_name,
            LINE_END@,
        );
    }
}

/// Whether a text holds no `$`, the character that every slot key begins
/// with.
pub open spec fn marker_free(text: Seq<char>) -> bool {
    forall|i: int| 0 <= i < text.len() ==> (#[trigger] text[i]) != '$'
}

/// Whether `key` is one of the five slot keys.
pub open spec fn is_slot_key(key: Seq<char>) -> bool {
    key == KEY_PACKAGES@ || key == KEY_BINARY@ || key == KEY_TRUNCATE@ || key == KEY_FILES@ || key
        == KEY_BINARY_NAME@
}

proof fn lemma_slot_free_concat(a: Seq<char>, b: Seq<char>)
    requires
        slot_free(a),
        slot_free(b),
    ensures
        slot_free(a + b),
{
    let text = a + b;
    assert forall|i: int| 0 <= i < text.len() implies (#[trigger] text[i]) != '$' || (i + 1
        < text.len() && text[i + 1] == 'S') by {
        if i < a.len() {
            assert(text[i] == a[i]);
            if a[i] == '$' {
                assert(text[i + 1] == a[i + 1]);
            }
        } else {
            assert(text[i] == b[i - a.len()]);
            if b[i - a.len()] == '$' {
                assert(text[i + 1] == b[i - a.len() + 1]);
            }
        }
    }
}

/// No slot survives rendering: where the values hold no `$`, none of the
/// five keys stands anywhere in the filled template, whatever text without
/// `$` follows it.
pub proof fn lemma_no_slot_survives(slots: SlotValues, rest: Seq<char>, key: Seq<char>, at: int)
    requires
        marker_free(slots.packages),
        marker_free(slots.binary),
        marker_free(slots.truncation),
        marker_free(slots.files),
        marker_free(slots.binary_name),
        marker_free(rest),
        is_slot_key(key),
    ensures
        !occurs_at(filled_template(slots) + rest, at, key),
{
    lemma_sections_slot_free();
    let l1 = BASE_SECTION@ + slots.packages;
    let l2 = l1 + INSTALL_SECTION@;
    let l3 = l2 + slots.binary;
    let l4 = l3 + BINARY_TARGET@;
    let l5 = l4 + slots.truncation;
    let l6 = l5 + LINE_END@;
    let l7 = l6 + slots.files;
    let l8 = l7 + SNAPSHOT_SECTION@;
    let l9 = l8 + slots.binary_name;
    let l10 = l9 + LINE_END@;
    let text = l10 + rest;
    lemma_slot_free_concat(BASE_SECTION@, slots.packages);
    lemma_slot_free_concat(l1, INSTALL_SECTION@);
    lemma_slot_free_concat(l2, slots.binary);
    lemma_slot_free_concat(l3, BINARY_TARGET@);
    lemma_slot_free_concat(l4, slots.truncation);
    lemma_slot_free_concat(l5, LINE_END@);
    lemma_slot_free_concat(l6, slots.files);
    lemma_slot_free_concat(l7, SNAPSHOT_SECTION@);
    lemma_slot_free_concat(l8, slots.binary_name);
    lemma_slot_free_concat(l9, LINE_END@);
    lemma_slot_free_concat(l10, rest);
    assert(l10 == filled_template(slots));
    lemma_key_texts();
    if occurs_at(text, at, key) {
        let found = text.subrange(at, at + key.len());
        assert(found[0] == text[at]);
        assert(found[1] == text[at + 1]);
    }
}

/// The content of an optional truncation.
pub open spec fn truncation_view(truncation: Option<TruncationSpec>) -> Option<TruncationView> {
    match truncation {
        Some(truncation) => Some(truncation@),
        None => None,
    }
}

/// The line that creates the input file exists exactly when the
/// placeholder occurs among the tokens.
pub proof fn lemma_truncation_line_iff_placeholder(
    tokens: Seq<TokenView>,
    input_file_size: Option<u64>,
)
    ensures
        truncation_directive_of(truncation_of(tokens, input_file_size)).len() > 0
            <==> has_placeholder(tokens),
{
    reveal_strlit("RUN truncate -s ");
}

/// Rendering depends on nothing but the request, the tokens and the
/// truncation: the same of each gives the same manifest, character for
/// character, however often it is rendered.
pub proof fn lemma_rendering_is_deterministic(
    first: CommandLineArgs,
    first_tokens: Seq<ArgumentToken>,
    first_truncation: Option<TruncationSpec>,
    second: CommandLineArgs,
    second_tokens: Seq<ArgumentToken>,
    second_truncation: Option<TruncationSpec>,
)
    requires
        first@ == second@,
        token_views(first_tokens) == token_views(second_tokens),
        truncation_view(first_truncation) == truncation_view(second_truncation),
    ensures
        manifest_text(first@, token_views(first_tokens), truncation_view(first_truncation))
            == manifest_text(
            second@,
            token_views(second_tokens),
            truncation_view(second_truncation),
        ),
{
}

/// The base template as text.
pub fn base_template() -> (template: String)
    ensures
        template@ == base_template_text(),
{
    let mut template = BASE_SECTION.to_owned();
    template.append(KEY_PACKAGES);
    template.append(INSTALL_SECTION);
    template.append(KEY_BINARY);
    template.append(BINARY_TARGET);
    template.append(KEY_TRUNCATE);
    template.append(LINE_END);
    template.append(KEY_FILES);
    template.append(SNAPSHOT_SECTION);
    template.append(KEY_BINARY_NAME);
    template.append(LINE_END);
    template
}

/// The line that creates the input file; empty where none is asked for.
pub fn truncation_directive(truncation: &Option<TruncationSpec>) -> (line: String)
    ensures
        line@ == truncation_directive_of(truncation_view(*truncation)),
{
    match truncation {
        Some(truncation) => {
            let mut line = TRUNCATE_COMMAND.to_owned();
            push_decimal(&mut line, truncation.size);
            line.append(" ");
            line.append(truncation.target.as_str());
            line
        },
        None => String::new(),
    }
}

/// The copy instructions of the staged files, one per line.
pub fn copy_block(tokens: &Vec<ArgumentToken>) -> (block: String)
    ensures
        block@ == copy_block_of(token_views(tokens@)),
{
    let copies = staged_copies(tokens);
    join_strings(&copies, LINE_END)
}

/// Appends the declarations to a manifest.
fn declare(out: &mut String, args: &CommandLineArgs, tokens: &Vec<ArgumentToken>)
    ensures
        final(out)@ == old(out)@ + declarations(args@, token_views(tokens@)),
{
    let ghost start = out@;
    let function = args.break_function();
    out.append(FUNCTION_DECLARATION);
    out.append(function.as_str());
    out.append(LINE_END);
    out.append(IMAGE_DECLARATION);
    out.append(args.image_kind().name());
    out.append(LINE_END);
    let ghost fixed = FUNCTION_DECLARATION@ + args@.break_function() + LINE_END@
        + IMAGE_DECLARATION@ + args@.image_kind().name_text() + LINE_END@;
    assert(out@ =~= start + fixed);
    let arguments = final_arguments(tokens);
    if arguments.len() > 0 {
        let joined = join_strings(&arguments, " ");
        out.append(ARGUMENTS_DECLARATION);
        out.append(joined.as_str());
        out.append(ARGUMENTS_END);
        assert(out@ =~= start + (fixed + (ARGUMENTS_DECLARATION@ + joined@ + ARGUMENTS_END@)));
    } else {
        assert(out@ =~= start + (fixed + Seq::<char>::empty()));
    }
}

/// Renders a manifest from a template of the caller's: fills the five slots
/// in one pass and appends the declarations.
///
/// The only error is `MissingBinaryName`, for a binary whose path has no
/// base name; nothing is rendered then.
pub fn render_with_template(
    template: &str,
    args: &CommandLineArgs,
    tokens: &Vec<ArgumentToken>,
    truncation: &Option<TruncationSpec>,
) -> (r: Result<RenderedManifest, ManifestError>)
    ensures
        (match r {
            Ok(manifest) => manifest_from(
                template@,
                args@,
                token_views(tokens@),
                truncation_view(*truncation),
            ) == Ok::<Seq<char>, ManifestError>(manifest@),
            Err(e) => manifest_from(
                template@,
                args@,
                token_views(tokens@),
                truncation_view(*truncation),
            ) == Err::<Seq<char>, ManifestError>(e),
        }),
{
    let binary_name = match args.binary_name() {
        Some(name) => name,
        None => {
            return Err(ManifestError::MissingBinaryName);
        },
    };
    let ghost slots = slots_of(
        args@,
        binary_name@,
        token_views(tokens@),
        truncation_view(*truncation),
    );
    let mut bindings: Vec<Binding> = Vec::new();
    bindings.push(Binding { key: KEY_PACKAGES.to_owned(), value: args.package_list() });
    bindings.push(Binding { key: KEY_BINARY.to_owned(), value: args.binary.clone() });
    bindings.push(
        Binding { key: KEY_TRUNCATE.to_owned(), value: truncation_directive(truncation) },
    );
    bindings.push(Binding { key: KEY_FILES.to_owned(), value: copy_block(tokens) });
    bindings.push(Binding { key: KEY_BINARY_NAME.to_owned(), value: binary_name });
    assert(binding_views(bindings@) =~= slot_bindings(slots));
    let mut text = fill(template, &bindings);
    declare(&mut text, args, tokens);
    Ok(RenderedManifest { text })
}

/// Renders the manifest: the base template with the path of the binary, its
/// base name, the packages, the truncation line and the copy instructions
/// in their places, then the declarations of the break function, the image
/// kind, and the arguments if there are any.
///
/// The only error is `MissingBinaryName`, for a binary whose path has no
/// base name; nothing is rendered then.
pub fn render_manifest(
    args: &CommandLineArgs,
    tokens: &Vec<ArgumentToken>,
    truncation: &Option<TruncationSpec>,
) -> (r: Result<RenderedManifest, ManifestError>)
    ensures
        (match r {
            Ok(manifest) => manifest_text(
                args@,
                token_views(tokens@),
                truncation_view(*truncation),
            ) == Ok::<Seq<char>, ManifestError>(manifest@),
            Err(e) => manifest_text(args@, token_views(tokens@), truncation_view(*truncation))
                == Err::<Seq<char>, ManifestError>(e),
        }),
{
    let template = base_template();
    proof {
        match args@.binary_name() {
            Some(name) => {
                lemma_base_template_filled(
                    slots_of(args@, name, token_views(tokens@), truncation_view(*truncation)),
                );
            },
            None => {},
        }
    }
    render_with_template(template.as_str(), args, tokens, truncation)
}

/// Derives the manifest for a request: cuts the arguments into tokens,
/// classifies them with the probes, one for each token in order, decides on
/// the truncation, and renders.
///
/// Errors, in this order: `MissingBinaryName` for a binary whose path has no
/// base name; `ProbeCountMismatch` where the number of probes is not the
/// number of tokens; `UnnamedStagedFile` where a staged path has no base
/// name. Nothing is rendered in any of these cases.
pub fn build_manifest(args: &CommandLineArgs, probes: &Vec<PathProbe>) -> (r: Result<
    RenderedManifest,
    ManifestError,
>)
    ensures
        (match r {
            Ok(manifest) => derived_manifest(args@, probe_views(probes@)) == Ok::<
                Seq<char>,
                ManifestError,
            >(manifest@),
            Err(e) => derived_manifest(args@, probe_views(probes@)) == Err::<
                Seq<char>,
                ManifestError,
            >(e),
        }),
{
    if args.binary_name().is_none() {
        return Err(ManifestError::MissingBinaryName);
    }
    let tokens = tokenize(&args.arguments);
    let classes = match classify_arguments(&tokens, probes) {
        Ok(classes) => classes,
        Err(e) => {
            return Err(e);
        },
    };
    let truncation = truncation_for(&classes, args.input_file_size);
    render_manifest(args, &classes, &truncation)
}

} // verus!

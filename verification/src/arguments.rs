//! Classification of the arguments that are passed on to the target binary.
//!
//! The raw argument string is cut at every space. Each token is then a file
//! to stage into the image, the placeholder for the generated input file,
//! or a literal, decided in that order. Whether a token names a file is an
//! observation about the file system that the caller makes and hands in as
//! a `PathProbe`.

use vstd::prelude::*;
use crate::paths::{
    base_name, base_name_of, in_device_namespace, is_device_path, quote_path, quoted_path,
};
use crate::text::{join, lemma_split_join, optional_text, same_text, split, split_text, views};

verus! {

/// The marker that stands for the generated input file in the raw arguments.
pub const PLACEHOLDER_MARKER: &'static str = "@@";

/// The place of the generated input file inside the image.
pub const INPUT_FILE_PATH: &'static str = "/opt/truncated_input_file";

/// The directory inside the image that staged files are copied to, with its
/// trailing separator.
pub const STAGING_PREFIX: &'static str = "/opt/";

/// The size of the generated input file where none is asked for.
pub const DEFAULT_INPUT_FILE_SIZE: u64 = 32768;

/// Why no manifest can be derived.
#[derive(Debug, Clone, Copy, PartialEq, Eq, Structural)]
pub enum ManifestError {
    /// The path of the target binary has no base name.
    MissingBinaryName,
    /// A token names an existing path that has no base name. The path is
    /// known to exist, so this is a fault that callers do not recover from.
    UnnamedStagedFile,
    /// The number of probes differs from the number of tokens.
    ProbeCountMismatch,
}

/// What the file system says about one token.
#[derive(Debug, Clone, PartialEq, Eq)]
pub struct PathProbe {
    /// The token as an absolute path, where it could be resolved.
    pub resolved: Option<String>,
    /// Whether the resolved path exists.
    pub exists: bool,
}

/// The mathematical content of a `PathProbe`.
pub struct PathProbeView {
    pub resolved: Option<Seq<char>>,
    pub exists: bool,
}

impl View for PathProbe {
    type V = PathProbeView;

    open spec fn view(&self) -> PathProbeView {
        PathProbeView {
            resolved: match self.resolved {
                Some(path) => Some(path@),
                None => None,
            },
            exists: self.exists,
        }
    }
}

/// A file outside the image that is copied into it before the binary runs.
#[derive(Debug, Clone, PartialEq, Eq)]
pub struct StagedFile {
    /// The absolute path of the file outside the image.
    pub source: String,
    /// The base name of that path, under which the file is staged.
    pub base_name: String,
}

/// The mathematical content of a `StagedFile`.
pub struct StagedFileView {
    pub source: Seq<char>,
    pub base_name: Seq<char>,
}

impl StagedFileView {
    /// The base name is the one that the source path has.
    pub open spec fn well_formed(self) -> bool {
        base_name_of(self.source) == Some(self.base_name)
    }
}

impl View for StagedFile {
    type V = StagedFileView;

    open spec fn view(&self) -> StagedFileView {
        StagedFileView { source: self.source@, base_name: self.base_name@ }
    }
}

impl StagedFile {
    /// The staged file for a source path; `None` where the path has no base
    /// name.
    pub fn new(source: &str) -> (file: Option<StagedFile>)
        ensures
            (match file {
                Some(f) => f@.source == source@ && f@.well_formed(),
                None => base_name_of(source@) is None,
            }),
    {
        match base_name(source) {
            Some(name) => Some(StagedFile { source: source.to_owned(), base_name: name }),
            None => None,
        }
    }
}

/// One classified argument.
#[derive(Debug, Clone, PartialEq, Eq)]
pub enum ArgumentToken {
    /// Text that is passed on unchanged.
    Literal(String),
    /// The placeholder for the generated input file.
    PlaceholderInputFile,
    /// A file that is staged into the image.
    StagedFileReference(StagedFile),
}

/// The mathematical content of an `ArgumentToken`.
pub enum TokenView {
    Literal(Seq<char>),
    PlaceholderInputFile,
    StagedFileReference(StagedFileView),
}

impl TokenView {
    /// A staged file carries the base name of its source.
    pub open spec fn well_formed(self) -> bool {
        match self {
            TokenView::StagedFileReference(file) => file.well_formed(),
            _ => true,
        }
    }
}

impl View for ArgumentToken {
    type V = TokenView;

    open spec fn view(&self) -> TokenView {
        match self {
            ArgumentToken::Literal(text) => TokenView::Literal(text@),
            ArgumentToken::PlaceholderInputFile => TokenView::PlaceholderInputFile,
            ArgumentToken::StagedFileReference(file) => TokenView::StagedFileReference(file@),
        }
    }
}

/// The views of a list of tokens, in order.
pub open spec fn token_views(tokens: Seq<ArgumentToken>) -> Seq<TokenView> {
    tokens.map_values(|token: ArgumentToken| token@)
}

/// The views of a list of probes, in order.
pub open spec fn probe_views(probes: Seq<PathProbe>) -> Seq<PathProbeView> {
    probes.map_values(|probe: PathProbe| probe@)
}

/// The tokens of the raw arguments: none where no arguments are given, else
/// the pieces between single spaces, empty pieces included.
pub open spec fn argument_tokens(arguments: Option<Seq<char>>) -> Seq<Seq<char>> {
    match arguments {
        Some(raw) => split(raw, ' '),
        None => Seq::empty(),
    }
}

/// Whether a token is staged: it was resolved to a path that exists, and
/// the token as written does not begin with the device prefix.
pub open spec fn is_staged(token: Seq<char>, probe: PathProbeView) -> bool {
    probe.resolved is Some && probe.exists && !is_device_path(token)
}

/// The class of one token. Staging is decided first, so a file that is
/// named like the placeholder marker is staged; then the marker; what is
/// neither is a literal.
pub open spec fn classify(token: Seq<char>, probe: PathProbeView) -> Result<
    TokenView,
    ManifestError,
> {
    if is_staged(token, probe) {
        match base_name_of(probe.resolved->0) {
            Some(name) => Ok(
                TokenView::StagedFileReference(
                    StagedFileView { source: probe.resolved->0, base_name: name },
                ),
            ),
            None => Err(ManifestError::UnnamedStagedFile),
        }
    } else if token == PLACEHOLDER_MARKER@ {
        Ok(TokenView::PlaceholderInputFile)
    } else {
        Ok(TokenView::Literal(token))
    }
}

/// The classes of all tokens, in the order of the tokens, or the reason
/// there are none.
pub open spec fn classify_all(tokens: Seq<Seq<char>>, probes: Seq<PathProbeView>) -> Result<
    Seq<TokenView>,
    ManifestError,
> {
    if tokens.len() != probes.len() {
        Err(ManifestError::ProbeCountMismatch)
    } else if exists|i: int|
        0 <= i < tokens.len() && (#[trigger] classify(tokens[i], probes[i])) is Err {
        Err(ManifestError::UnnamedStagedFile)
    } else {
        Ok(Seq::new(tokens.len(), |i: int| classify(tokens[i], probes[i])->Ok_0))
    }
}

/// Whether the placeholder occurs among the tokens.
pub open spec fn has_placeholder(tokens: Seq<TokenView>) -> bool {
    exists|i: int| 0 <= i < tokens.len() && tokens[i] is PlaceholderInputFile
}

/// The request for a generated input file of a fixed size.
#[derive(Debug, Clone, PartialEq, Eq)]
pub struct TruncationSpec {
    /// The size of the file in bytes.
    pub size: u64,
    /// The path of the file inside the image.
    pub target: String,
}

/// The mathematical content of a `TruncationSpec`.
pub struct TruncationView {
    pub size: u64,
    pub target: Seq<char>,
}

impl View for TruncationSpec {
    type V = TruncationView;

    open spec fn view(&self) -> TruncationView {
        TruncationView { size: self.size, target: self.target@ }
    }
}

/// The truncation that a list of tokens asks for: one exactly when the
/// placeholder occurs, of the size asked for or else the default size, at
/// the fixed path of the input file.
pub open spec fn truncation_of(tokens: Seq<TokenView>, input_file_size: Option<u64>) -> Option<
    TruncationView,
> {
    if has_placeholder(tokens) {
        Some(
            TruncationView {
                size: match input_file_size {
                    Some(size) => size,
                    None => DEFAULT_INPUT_FILE_SIZE,
                },
                target: INPUT_FILE_PATH@,
            },
        )
    } else {
        None
    }
}

/// Cuts the raw arguments into tokens.
pub fn tokenize(arguments: &Option<String>) -> (tokens: Vec<String>)
    ensures
        views(tokens@) == argument_tokens(optional_text(*arguments)),
{
    match arguments {
        Some(raw) => split_text(raw.as_str(), ' '),
        None => {
            let tokens: Vec<String> = Vec::new();
            assert(views(tokens@) =~= Seq::<Seq<char>>::empty());
            tokens
        },
    }
}

/// Classifies one token, given what the file system says about it.
///
/// The only error is `UnnamedStagedFile`, for a token that is staged but
/// whose resolved path has no base name.
pub fn classify_token(token: &str, probe: &PathProbe) -> (r: Result<ArgumentToken, ManifestError>)
    ensures
        (match r {
            Ok(class) => classify(token@, probe@) == Ok::<TokenView, ManifestError>(class@)
                && class@.well_formed(),
            Err(e) => classify(token@, probe@) == Err::<TokenView, ManifestError>(e),
        }),
{
    if probe.exists && !in_device_namespace(token) {
        match &probe.resolved {
            Some(path) => {
                return match StagedFile::new(path.as_str()) {
                    Some(file) => Ok(ArgumentToken::StagedFileReference(file)),
                    None => Err(ManifestError::UnnamedStagedFile),
                };
            },
            None => {},
        }
    }
    if same_text(token, PLACEHOLDER_MARKER) {
        Ok(ArgumentToken::PlaceholderInputFile)
    } else {
        Ok(ArgumentToken::Literal(token.to_owned()))
    }
}

/// Classifies the tokens in order; `probes` holds one probe for each token,
/// at the same position.
///
/// The classes keep the order of the tokens: the class at each position is
/// the class of the token at that position.
pub fn classify_arguments(tokens: &Vec<String>, probes: &Vec<PathProbe>) -> (r: Result<
    Vec<ArgumentToken>,
    ManifestError,
>)
    ensures
        (match r {
            Ok(classes) => {
                &&& classify_all(views(tokens@), probe_views(probes@)) == Ok::<
                    Seq<TokenView>,
                    ManifestError,
                >(token_views(classes@))
                &&& classes.len() == tokens.len()
                &&& forall|i: int|
                    0 <= i < classes.len() ==> Ok::<TokenView, ManifestError>(
                        #[trigger] classes[i]@,
                    ) == classify(tokens[i]@, probes[i]@) && classes[i]@.well_formed()
            },
            Err(e) => classify_all(views(tokens@), probe_views(probes@)) == Err::<
                Seq<TokenView>,
                ManifestError,
            >(e),
        }),
{
    if tokens.len() != probes.len() {
        return Err(ManifestError::ProbeCountMismatch);
    }
    let ghost texts = views(tokens@);
    let ghost seen = probe_views(probes@);
    let mut classes: Vec<ArgumentToken> = Vec::new();
    let mut i: usize = 0;
    while i < tokens.len()
        invariant
            i <= tokens.len(),
            tokens.len() == probes.len(),
            texts == views(tokens@),
            seen == probe_views(probes@),
            classes.len() == i,
            forall|j: int|
                0 <= j < i ==> Ok::<TokenView, ManifestError>(#[trigger] classes[j]@) == classify(
                    texts[j],
                    seen[j],
                ) && classes[j]@.well_formed(),
        decreases tokens.len() - i,
    {
        match classify_token(tokens[i].as_str(), &probes[i]) {
            Ok(class) => {
                classes.push(class);
            },
            Err(e) => {
                assert(classify(texts[i as int], seen[i as int]) is Err);
                return Err(e);
            },
        }
        i += 1;
    }
    assert forall|j: int| 0 <= j < texts.len() implies (#[trigger] classify(
        texts[j],
        seen[j],
    )) == Ok::<TokenView, ManifestError>(classes[j]@) by {
        assert(classes[j]@.well_formed());
    }
    assert(token_views(classes@) =~= Seq::new(
        texts.len(),
        |i: int| classify(texts[i], seen[i])->Ok_0,
    ));
    Ok(classes)
}

/// The truncation that the tokens ask for. The default size is looked at
/// only where the placeholder occurs and no size is given.
pub fn truncation_for(tokens: &Vec<ArgumentToken>, input_file_size: Option<u64>) -> (r: Option<
    TruncationSpec,
>)
    ensures
        r is Some <==> has_placeholder(token_views(tokens@)),
        (match r {
            Some(truncation) => truncation_of(token_views(tokens@), input_file_size) == Some(
                truncation@,
            ),
            None => truncation_of(token_views(tokens@), input_file_size) is None,
        }),
{
    let mut i: usize = 0;
    while i < tokens.len()
        invariant
            i <= tokens.len(),
            forall|j: int|
                0 <= j < i ==> !((#[trigger] token_views(tokens@)[j]) is PlaceholderInputFile),
        decreases tokens.len() - i,
    {
        match &tokens[i] {
            ArgumentToken::PlaceholderInputFile => {
                assert(token_views(tokens@)[i as int] is PlaceholderInputFile);
                let size = match input_file_size {
                    Some(size) => size,
                    None => DEFAULT_INPUT_FILE_SIZE,
                };
                return Some(TruncationSpec { size, target: INPUT_FILE_PATH.to_owned() });
            },
            _ => {},
        }
        i += 1;
    }
    None
}

/// The argument that the binary receives for a token: a literal as it is,
/// the path of the generated input file for the placeholder, and the place
/// inside the staging directory for a staged file.
pub open spec fn rewritten(token: TokenView) -> Seq<char> {
    match token {
        TokenView::Literal(text) => text,
        TokenView::PlaceholderInputFile => INPUT_FILE_PATH@,
        TokenView::StagedFileReference(file) => STAGING_PREFIX@ + file.base_name,
    }
}

/// The arguments that the binary receives, in the order of the tokens.
pub open spec fn rewritten_arguments(tokens: Seq<TokenView>) -> Seq<Seq<char>> {
    tokens.map_values(|token: TokenView| rewritten(token))
}

/// The instruction that copies a path, given in its quoted form, into the
/// staging directory.
pub open spec fn copy_line(quoted: Seq<char>) -> Seq<char> {
    "COPY "@ + quoted + " /opt"@
}

/// The instruction that copies a staged file into the image.
pub open spec fn copy_instruction_of(file: StagedFileView) -> Seq<char> {
    copy_line(quoted_path(file.source))
}

/// The copy instructions of the staged files among the tokens, in the order
/// of the tokens.
pub open spec fn copy_instructions(tokens: Seq<TokenView>) -> Seq<Seq<char>>
    decreases tokens.len(),
{
    if tokens.len() == 0 {
        Seq::empty()
    } else {
        let before = copy_instructions(tokens.drop_last());
        match tokens.last() {
            TokenView::StagedFileReference(file) => before.push(copy_instruction_of(file)),
            _ => before,
        }
    }
}

/// The copy instruction for a path that is already quoted.
pub fn copy_line_for(quoted: &str) -> (line: String)
    ensures
        line@ == copy_line(quoted@),
{
    let mut line = "COPY ".to_owned();
    line.append(quoted);
    line.append(" /opt");
    line
}

impl StagedFile {
    /// The instruction that copies this file into the image. The source is
    /// written in its quoted form.
    pub fn copy_instruction(&self) -> (line: String)
        ensures
            line@ == copy_instruction_of(self@),
    {
        let quoted = quote_path(self.source.as_str());
        copy_line_for(quoted.as_str())
    }
}

impl ArgumentToken {
    /// The argument that the binary receives for this token.
    pub fn rewritten(&self) -> (argument: String)
        ensures
            argument@ == rewritten(self@),
    {
        match self {
            ArgumentToken::Literal(text) => text.clone(),
            ArgumentToken::PlaceholderInputFile => INPUT_FILE_PATH.to_owned(),
            ArgumentToken::StagedFileReference(file) => {
                let mut argument = STAGING_PREFIX.to_owned();
                argument.append(file.base_name.as_str());
                argument
            },
        }
    }
}

/// The arguments that the binary receives, in the order of the tokens.
pub fn final_arguments(tokens: &Vec<ArgumentToken>) -> (arguments: Vec<String>)
    ensures
        views(arguments@) == rewritten_arguments(token_views(tokens@)),
{
    let mut arguments: Vec<String> = Vec::new();
    let mut i: usize = 0;
    while i < tokens.len()
        invariant
            i <= tokens.len(),
            arguments.len() == i,
            forall|j: int| 0 <= j < i ==> (#[trigger] arguments[j])@ == rewritten(tokens[j]@),
        decreases tokens.len() - i,
    {
        arguments.push(tokens[i].rewritten());
        i += 1;
    }
    assert(views(arguments@) =~= rewritten_arguments(token_views(tokens@)));
    arguments
}

/// The copy instructions of the staged files, in the order of the tokens.
pub fn staged_copies(tokens: &Vec<ArgumentToken>) -> (copies: Vec<String>)
    ensures
        views(copies@) == copy_instructions(token_views(tokens@)),
{
    let mut copies: Vec<String> = Vec::new();
    let mut i: usize = 0;
    assert(token_views(tokens@).take(0) =~= Seq::<TokenView>::empty());
    assert(views(copies@) =~= Seq::<Seq<char>>::empty());
    while i < tokens.len()
        invariant
            i <= tokens.len(),
            views(copies@) == copy_instructions(token_views(tokens@).take(i as int)),
        decreases tokens.len() - i,
    {
        let ghost read = token_views(tokens@).take(i + 1);
        assert(read.drop_last() =~= token_views(tokens@).take(i as int));
        assert(read.last() == tokens[i as int]@);
        let ghost before = views(copies@);
        match &tokens[i] {
            ArgumentToken::StagedFileReference(file) => {
                copies.push(file.copy_instruction());
                assert(views(copies@) =~= before.push(copy_instruction_of(file@)));
            },
            _ => {},
        }
        i += 1;
    }
    assert(token_views(tokens@).take(tokens.len() as int) =~= token_views(tokens@));
    copies
}

/// A token that names an existing path outside the device namespace is
/// staged, whatever its text: the staged file has the resolved path as its
/// source and the base name of that path, its copy instruction copies that
/// source, and the binary receives the base name inside the staging
/// directory. This holds of a resolved path that has a base name.
pub proof fn lemma_existing_file_is_staged(token: Seq<char>, probe: PathProbeView)
    requires
        probe.resolved is Some,
        probe.exists,
        !is_device_path(token),
        base_name_of(probe.resolved->0) is Some,
    ensures
        classify(token, probe) is Ok,
        classify(token, probe)->Ok_0 is StagedFileReference,
        ({
            let file = classify(token, probe)->Ok_0->StagedFileReference_0;
            &&& file.source == probe.resolved->0
            &&& Some(file.base_name) == base_name_of(file.source)
            &&& copy_instruction_of(file) == copy_line(quoted_path(probe.resolved->0))
            &&& rewritten(classify(token, probe)->Ok_0) == STAGING_PREFIX@ + file.base_name
        }),
{
}

/// A token that names no existing path, or lies in the device namespace, is
/// passed on unchanged as a literal, unless it is the placeholder marker,
/// which stands for the generated input file.
pub proof fn lemma_missing_path_is_literal(token: Seq<char>, probe: PathProbeView)
    requires
        !probe.exists || probe.resolved is None || is_device_path(token),
    ensures
        token != PLACEHOLDER_MARKER@ ==> classify(token, probe) == Ok::<TokenView, ManifestError>(
            TokenView::Literal(token),
        ) && rewritten(TokenView::Literal(token)) == token,
        token == PLACEHOLDER_MARKER@ ==> classify(token, probe) == Ok::<TokenView, ManifestError>(
            TokenView::PlaceholderInputFile,
        ),
{
}

/// Truncation is asked for exactly when the placeholder occurs among the
/// tokens.
pub proof fn lemma_truncation_iff_placeholder(tokens: Seq<TokenView>, input_file_size: Option<u64>)
    ensures
        truncation_of(tokens, input_file_size) is Some <==> has_placeholder(tokens),
{
}

/// Classification keeps the order of the tokens: where it succeeds there is
/// one class for each token, and the class at each position is the class of
/// the token at that position.
pub proof fn lemma_classification_keeps_order(tokens: Seq<Seq<char>>, probes: Seq<PathProbeView>)
    requires
        classify_all(tokens, probes) is Ok,
    ensures
        classify_all(tokens, probes)->Ok_0.len() == tokens.len(),
        forall|i: int|
            0 <= i < tokens.len() ==> classify(tokens[i], probes[i]) == Ok::<
                TokenView,
                ManifestError,
            >(#[trigger] classify_all(tokens, probes)->Ok_0[i]),
{
    assert forall|i: int| 0 <= i < tokens.len() implies classify(tokens[i], probes[i]) == Ok::<
        TokenView,
        ManifestError,
    >(#[trigger] classify_all(tokens, probes)->Ok_0[i]) by {
        assert(classify(tokens[i], probes[i]) is Ok);
    }
}

/// Arguments that name no existing file and do not hold the placeholder
/// reach the binary as they were written: their rewritten forms, joined by
/// single spaces, are the raw argument string.
pub proof fn lemma_literal_arguments_pass_through(raw: Seq<char>, probes: Seq<PathProbeView>)
    requires
        probes.len() == split(raw, ' ').len(),
        forall|i: int|
            0 <= i < probes.len() ==> !is_staged(split(raw, ' ')[i], #[trigger] probes[i])
                && split(raw, ' ')[i] != PLACEHOLDER_MARKER@,
    ensures
        classify_all(split(raw, ' '), probes) is Ok,
        join(rewritten_arguments(classify_all(split(raw, ' '), probes)->Ok_0), " "@) == raw,
{
    reveal_strlit(" ");
    let tokens = split(raw, ' ');
    assert forall|i: int| 0 <= i < tokens.len() implies (#[trigger] classify(
        tokens[i],
        probes[i],
    )) == Ok::<TokenView, ManifestError>(TokenView::Literal(tokens[i])) by {
        assert(!is_staged(tokens[i], probes[i]));
    }
    let classes = classify_all(tokens, probes)->Ok_0;
    assert(rewritten_arguments(classes) =~= tokens);
    lemma_split_join(raw, ' ');
    assert(" "@ =~= seq![' ']);
}

} // verus!

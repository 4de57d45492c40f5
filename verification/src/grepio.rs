use vstd::prelude::*;

verus! {

#[verifier::external_type_specification]
#[verifier::external_body]
pub struct ExRegexMatcher(grep::regex::RegexMatcher);

#[verifier::external_type_specification]
#[verifier::external_body]
pub struct ExRegexError(grep::regex::Error);

#[verifier::external_type_specification]
#[verifier::external_body]
pub struct ExSearcher(grep::searcher::Searcher);

#[verifier::external_type_specification]
#[verifier::external_body]
pub struct ExStandardStream(grep::cli::StandardStream);

#[verifier::external_type_specification]
#[verifier::external_body]
#[verifier::reject_recursive_types(W)]
pub struct ExStandard<W>(grep::printer::Standard<W>);

#[verifier::external_type_specification]
#[verifier::external_body]
pub struct ExIoError(std::io::Error);

/// Relies on grep::regex::RegexMatcher::new: compiles the pattern, failing
/// exactly when it is not a valid regular expression.
#[verifier::external_body]
pub fn compile_matcher(pattern: &str) -> (r: Result<
    grep::regex::RegexMatcher,
    grep::regex::Error,
>) {
    grep::regex::RegexMatcher::new(pattern)
}

/// Relies on grep::searcher::SearcherBuilder: a line-oriented searcher that
/// reports line numbers and stops on input holding a zero byte, treating it
/// as binary.
#[verifier::external_body]
pub fn build_searcher() -> (r: grep::searcher::Searcher) {
    grep::searcher::SearcherBuilder::new()
        .binary_detection(grep::searcher::BinaryDetection::quit(0))
        .line_number(true)
        .build()
}

/// Relies on grep::printer::StandardBuilder and grep::cli::stdout: a printer
/// that renders matches to standard output, colored when asked to.
#[verifier::external_body]
pub fn build_printer(color: bool) -> (r: grep::printer::Standard<grep::cli::StandardStream>) {
    let choice = if color {
        termcolor::ColorChoice::Auto
    } else {
        termcolor::ColorChoice::Never
    };
    grep::printer::StandardBuilder::new()
        .color_specs(grep::printer::ColorSpecs::default_with_color())
        .build(grep::cli::stdout(choice))
}

/// Relies on grep::searcher::Searcher::search_slice: runs the matcher over
/// the given bytes and emits every match to the printer's sink, tagged with
/// the given label.
#[verifier::external_body]
pub fn run_search(
    searcher: &mut grep::searcher::Searcher,
    matcher: &grep::regex::RegexMatcher,
    printer: &mut grep::printer::Standard<grep::cli::StandardStream>,
    data: &Vec<u8>,
    label: &Vec<u8>,
) -> (r: Result<(), std::io::Error>) {
    let path = String::from_utf8_lossy(label).into_owned();
    let sink = printer.sink_with_path(matcher, &path);
    searcher.search_slice(matcher, data.as_slice(), sink)
}

} // verus!

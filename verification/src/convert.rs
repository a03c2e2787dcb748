//! Decision logic of the document-conversion collaborator: converter
//! preference, request validation, and batch summary. Running the
//! converters themselves is subprocess work and stays outside the
//! library; these functions take the outcomes as plain values.

use vstd::prelude::*;
use vstd::string::StringExecFns;

verus! {

/// The outcome of one conversion.
#[derive(Debug, Clone)]
pub struct ConversionResult {
    pub success: bool,
    pub output_path: Option<String>,
    pub error: Option<String>,
}

/// Which converter is available, and where.
#[derive(Debug, Clone)]
pub struct ConverterInfo {
    pub available: bool,
    /// `calibre`, `pandoc`, or `none`.
    pub converter: String,
    pub version: Option<String>,
    pub path: Option<String>,
}

/// One requested conversion.
#[derive(Debug, Clone)]
pub struct ConversionJob {
    pub epub_path: String,
    pub pdf_path: String,
}

/// The summary of a batch of conversions.
#[derive(Debug, Clone)]
pub struct BatchConversionResult {
    pub success: bool,
    pub converted: usize,
    pub failed: usize,
    pub errors: Vec<ConversionError>,
    pub output_paths: Vec<String>,
}

/// One failed file of a batch.
#[derive(Debug, Clone)]
pub struct ConversionError {
    pub file: String,
    pub error: String,
}

/// Picks the converter to use: the first detector result is preferred,
/// the second is the fallback, and an unavailable placeholder is handed
/// out when neither was detected.
pub fn choose_converter(calibre: Option<ConverterInfo>, pandoc: Option<ConverterInfo>) -> (r:
    ConverterInfo)
    ensures
        calibre is Some ==> r == calibre->0,
        calibre is None && pandoc is Some ==> r == pandoc->0,
        calibre is None && pandoc is None ==> !r.available && r.converter@ == "none"@
            && r.version is None && r.path is None,
{
    match calibre {
        Some(info) => info,
        None => match pandoc {
            Some(info) => info,
            None => ConverterInfo {
                available: false,
                converter: String::from_str("none"),
                version: None,
                path: None,
            },
        },
    }
}

/// A rejected conversion outcome with the given message.
pub open spec fn rejected_with(c: ConversionResult, msg: Seq<char>) -> bool {
    &&& !c.success
    &&& c.output_path is None
    &&& c.error matches Some(e) && e@ == msg
}

/// Validates the source of one conversion before anything runs: the
/// input must exist and carry the `epub` extension. The caller hands in
/// what it observed of the filesystem; a rejection carries the outcome
/// to return.
pub fn validate_conversion_source(
    epub_path: &str,
    epub_exists: bool,
    extension_is_epub: bool,
) -> (r: Option<ConversionResult>)
    ensures
        !epub_exists ==> (r matches Some(c) && rejected_with(
            c,
            "EPUB file not found: "@ + epub_path@,
        )),
        epub_exists && !extension_is_epub ==> (r matches Some(c) && rejected_with(
            c,
            "Input file must be an EPUB file"@,
        )),
        epub_exists && extension_is_epub ==> r is None,
{
    if !epub_exists {
        return Some(
            ConversionResult {
                success: false,
                output_path: None,
                error: Some(String::from_str("EPUB file not found: ").concat(epub_path)),
            },
        );
    }
    if !extension_is_epub {
        return Some(
            ConversionResult {
                success: false,
                output_path: None,
                error: Some(String::from_str("Input file must be an EPUB file")),
            },
        );
    }
    None
}

/// Which converter a request names.
pub enum SelectedConverter {
    Calibre,
    Pandoc,
    /// The name is not a known converter; the payload is the outcome to
    /// return.
    Unknown(ConversionResult),
}

/// Resolves a converter name: `calibre` and `pandoc` are known, and any
/// other name is rejected with a message that carries it.
pub fn select_converter(converter: &str) -> (r: SelectedConverter)
    ensures
        converter@ == "calibre"@ ==> r is Calibre,
        converter@ == "pandoc"@ ==> r is Pandoc,
        converter@ != "calibre"@ && converter@ != "pandoc"@ ==> (r matches SelectedConverter::Unknown(c)
            && rejected_with(c, "Unknown converter: "@ + converter@)),
{
    proof {
        reveal_strlit("calibre");
        reveal_strlit("pandoc");
        assert("calibre"@.len() != "pandoc"@.len());
    }
    let name = String::from_str(converter);
    if name == String::from_str("calibre") {
        return SelectedConverter::Calibre;
    }
    if name == String::from_str("pandoc") {
        return SelectedConverter::Pandoc;
    }
    SelectedConverter::Unknown(
        ConversionResult {
            success: false,
            output_path: None,
            error: Some(String::from_str("Unknown converter: ").concat(converter)),
        },
    )
}

/// The file-view of an error list: each entry as its file and message
/// character sequences.
pub open spec fn err_views(s: Seq<ConversionError>) -> Seq<(Seq<char>, Seq<char>)> {
    s.map_values(|e: ConversionError| (e.file@, e.error@))
}

/// The error entries a batch summary owes: one per failed outcome, in
/// order, carrying the outcome's message or a fixed fallback.
pub open spec fn spec_batch_errors(outs: Seq<(String, ConversionResult)>) -> Seq<
    (Seq<char>, Seq<char>),
>
    decreases outs.len(),
{
    if outs.len() == 0 {
        Seq::empty()
    } else {
        let init = spec_batch_errors(outs.drop_last());
        let last = outs.last();
        if last.1.success {
            init
        } else {
            init.push(
                (
                    last.0@,
                    match last.1.error {
                        Some(m) => m@,
                        None => "Unknown error"@,
                    },
                ),
            )
        }
    }
}

/// The output paths a batch summary owes: those of the successful
/// outcomes that reported one, in order.
pub open spec fn spec_batch_outputs(outs: Seq<(String, ConversionResult)>) -> Seq<String>
    decreases outs.len(),
{
    if outs.len() == 0 {
        Seq::empty()
    } else {
        let init = spec_batch_outputs(outs.drop_last());
        let last = outs.last();
        if last.1.success && last.1.output_path is Some {
            init.push(last.1.output_path->0)
        } else {
            init
        }
    }
}

/// How many outcomes of the batch succeeded.
pub open spec fn spec_batch_converted(outs: Seq<(String, ConversionResult)>) -> int
    decreases outs.len(),
{
    if outs.len() == 0 {
        0
    } else {
        spec_batch_converted(outs.drop_last()) + if outs.last().1.success {
            1int
        } else {
            0int
        }
    }
}

/// Counts are bounded by the number of outcomes.
pub proof fn lemma_batch_counts(outs: Seq<(String, ConversionResult)>)
    ensures
        0 <= spec_batch_converted(outs) <= outs.len(),
    decreases outs.len(),
{
    if outs.len() > 0 {
        lemma_batch_counts(outs.drop_last());
    }
}

/// Summarizes a batch: each outcome is the conversion result for one
/// source file. The summary counts successes and failures, collects
/// the produced output paths and one error entry per failure, and is
/// successful exactly when nothing failed.
pub fn summarize_batch(outcomes: Vec<(String, ConversionResult)>) -> (r: BatchConversionResult)
    ensures
        r.converted == spec_batch_converted(outcomes@),
        r.converted + r.failed == outcomes@.len(),
        r.success <==> r.failed == 0,
        err_views(r.errors@) == spec_batch_errors(outcomes@),
        r.output_paths@ == spec_batch_outputs(outcomes@),
{
    let ghost orig = outcomes@;
    let mut rev = crate::raw::reversed(outcomes);
    let total: usize = rev.len();
    let mut converted: usize = 0;
    let mut failed: usize = 0;
    let mut errors: Vec<ConversionError> = Vec::new();
    let mut output_paths: Vec<String> = Vec::new();
    proof {
        assert(orig.skip(0) =~= orig);
        assert(orig.take(0) =~= Seq::<(String, ConversionResult)>::empty());
        assert(err_views(errors@) =~= spec_batch_errors(orig.take(0)));
    }
    while rev.len() > 0
        invariant
            total == orig.len(),
            rev@.len() <= orig.len(),
            rev@ == orig.skip((orig.len() - rev@.len()) as int).reverse(),
            converted == spec_batch_converted(orig.take((orig.len() - rev@.len()) as int)),
            converted + failed == orig.len() - rev@.len(),
            err_views(errors@) == spec_batch_errors(orig.take((orig.len() - rev@.len()) as int)),
            output_paths@ == spec_batch_outputs(orig.take((orig.len() - rev@.len()) as int)),
        decreases rev.len(),
    {
        let ghost i: int = orig.len() - rev@.len();
        let x = rev.pop().unwrap();
        proof {
            assert(x == orig.skip(i as int).reverse().last());
            assert(orig.skip(i as int).reverse().last() == orig.skip(i as int)[0]);
            assert(orig.skip(i as int)[0] == orig[i as int]);
            assert(rev@ =~= orig.skip(i as int + 1).reverse());
            lemma_batch_counts(orig.take(i as int));
        }
        let (file, result) = x;
        if result.success {
            converted = converted + 1;
            match result.output_path {
                Some(p) => output_paths.push(p),
                None => {},
            }
        } else {
            failed = failed + 1;
            let message = match result.error {
                Some(m) => m,
                None => String::from_str("Unknown error"),
            };
            errors.push(ConversionError { file, error: message });
        }
        proof {
            let t = orig.take(i as int + 1);
            assert(t.drop_last() =~= orig.take(i as int));
            assert(t.last() == orig[i as int]);
            assert(err_views(errors@) =~= spec_batch_errors(t));
            assert(output_paths@ == spec_batch_outputs(t));
            assert(converted == spec_batch_converted(t));
        }
    }
    proof {
        assert(orig.take(orig.len() as int) =~= orig);
    }
    BatchConversionResult {
        success: failed == 0,
        converted,
        failed,
        errors,
        output_paths,
    }
}

} // verus!

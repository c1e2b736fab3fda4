//! The names of impact programs, and of the files that they are made of.

use crate::error::Error;
use crate::text::{concat2, optional_str};
use vstd::prelude::*;
use vstd::string::*;

verus! {

/// The text that names a program: the given guid, or else the name of the output
/// file, or else that of the input file.
pub open spec fn guid_text_of(
    guid: Option<Seq<char>>,
    output_stem: Option<Seq<char>>,
    input_stem: Seq<char>,
) -> Seq<char> {
    match guid {
        Some(guid) => guid,
        None => match output_stem {
            Some(stem) => stem,
            None => input_stem,
        },
    }
}

/// What is said where the text that names a program is not a guid.
pub open spec fn invalid_guid_text(
    guid: Option<Seq<char>>,
    output_stem: Option<Seq<char>>,
) -> Seq<char> {
    match guid {
        Some(guid) => "`"@ + guid + "` is not a valid descriptor guid"@,
        None => match output_stem {
            Some(_) => "Output file name must be a valid descriptor guid"@,
            None => "Input file name must be a valid descriptor guid"@,
        },
    }
}

/// The text that names a program.
pub fn guid_text<'a>(
    guid: Option<&'a str>,
    output_stem: Option<&'a str>,
    input_stem: &'a str,
) -> (text: &'a str)
    ensures
        text@ == guid_text_of(optional_str(guid), optional_str(output_stem), input_stem@),
{
    match guid {
        Some(guid) => guid,
        None => match output_stem {
            Some(stem) => stem,
            None => input_stem,
        },
    }
}

/// What is said where the text that names a program is not a guid.
pub fn invalid_guid(guid: Option<&str>, output_stem: Option<&str>) -> (error: Error)
    ensures
        error@ == invalid_guid_text(optional_str(guid), optional_str(output_stem)),
{
    match guid {
        Some(guid) => Error::of("`", guid, "` is not a valid descriptor guid"),
        None => match output_stem {
            Some(_) => Error("Output file name must be a valid descriptor guid".to_owned()),
            None => Error("Input file name must be a valid descriptor guid".to_owned()),
        },
    }
}

/// The files of a program: the code, the code that runs at the end, and the data.
pub struct ImpactFiles {
    pub code: String,
    pub shutdown: String,
    pub data: String,
}

/// The names of the files of a program: its code, the code for its end, and its data.
pub open spec fn program_files(stem: Seq<char>) -> (Seq<char>, Seq<char>, Seq<char>) {
    (stem + ".impact"@, stem + ".shutdown.impact"@, stem + ".data.json"@)
}

/// The files of the program with a name.
pub fn impact_files(stem: &str) -> (files: ImpactFiles)
    ensures
        files.code@ == stem@ + ".impact"@,
        files.shutdown@ == stem@ + ".shutdown.impact"@,
        files.data@ == stem@ + ".data.json"@,
        (files.code@, files.shutdown@, files.data@) == program_files(stem@),
{
    ImpactFiles {
        code: concat2(stem, ".impact"),
        shutdown: concat2(stem, ".shutdown.impact"),
        data: concat2(stem, ".data.json"),
    }
}

/// The three files of a program are different files, and programs with different
/// names have different files.
pub proof fn law_program_files_differ(stem: Seq<char>, other: Seq<char>)
    ensures
        stem + ".impact"@ != stem + ".shutdown.impact"@,
        stem + ".impact"@ != stem + ".data.json"@,
        stem + ".shutdown.impact"@ != stem + ".data.json"@,
        stem + ".impact"@ == other + ".impact"@ ==> stem == other,
        stem + ".shutdown.impact"@ == other + ".shutdown.impact"@ ==> stem == other,
        stem + ".data.json"@ == other + ".data.json"@ ==> stem == other,
{
    reveal_strlit(".impact");
    reveal_strlit(".shutdown.impact");
    reveal_strlit(".data.json");
    assert((stem + ".impact"@).len() == stem.len() + 7);
    assert((stem + ".shutdown.impact"@).len() == stem.len() + 16);
    assert((stem + ".data.json"@).len() == stem.len() + 10);
    assert((other + ".impact"@).len() == other.len() + 7);
    assert((other + ".shutdown.impact"@).len() == other.len() + 16);
    assert((other + ".data.json"@).len() == other.len() + 10);
    if stem + ".impact"@ == other + ".impact"@ {
        assert((stem + ".impact"@).take(stem.len() as int) =~= stem);
        assert((other + ".impact"@).take(other.len() as int) =~= other);
    }
    if stem + ".shutdown.impact"@ == other + ".shutdown.impact"@ {
        assert((stem + ".shutdown.impact"@).take(stem.len() as int) =~= stem);
        assert((other + ".shutdown.impact"@).take(other.len() as int) =~= other);
    }
    if stem + ".data.json"@ == other + ".data.json"@ {
        assert((stem + ".data.json"@).take(stem.len() as int) =~= stem);
        assert((other + ".data.json"@).take(other.len() as int) =~= other);
    }
}

/// The guid that is given counts, or else the name of the output, or else that of the
/// input; and where that is no guid, the error says which of these it was.
pub proof fn law_where_the_guid_comes_from(
    guid: Seq<char>,
    output: Option<Seq<char>>,
    output_stem: Seq<char>,
    input_stem: Seq<char>,
)
    ensures
        guid_text_of(Some(guid), output, input_stem) == guid,
        guid_text_of(None, Some(output_stem), input_stem) == output_stem,
        guid_text_of(None, None, input_stem) == input_stem,
        invalid_guid_text(Some(guid), output) == "`"@ + guid
            + "` is not a valid descriptor guid"@,
        invalid_guid_text(None, Some(output_stem))
            == "Output file name must be a valid descriptor guid"@,
        invalid_guid_text(None, None) == "Input file name must be a valid descriptor guid"@,
{
}

/// Each file of a program goes by the name of the program and an ending of its own.
pub proof fn law_endings_of_program_files(stem: Seq<char>)
    ensures
        program_files(stem).0 == stem + ".impact"@,
        program_files(stem).1 == stem + ".shutdown"@ + program_files(Seq::empty()).0,
        program_files(stem).2 == stem + ".data"@ + ".json"@,
{
    reveal_strlit(".impact");
    reveal_strlit(".shutdown");
    reveal_strlit(".shutdown.impact");
    reveal_strlit(".data");
    reveal_strlit(".json");
    reveal_strlit(".data.json");
    assert(Seq::<char>::empty() + ".impact"@ =~= ".impact"@);
    assert(stem + ".shutdown.impact"@ =~= stem + ".shutdown"@ + ".impact"@);
    assert(stem + ".data.json"@ =~= stem + ".data"@ + ".json"@);
}

} // verus!

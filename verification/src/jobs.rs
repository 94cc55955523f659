//! The run coordinator's bookkeeping: which files a run reads and writes, and
//! whether a run as a whole succeeded.

use crate::pipeline::PipelineError;
use crate::pipeline::PipelineStats;
use crate::model::texts;
use crate::scan::lemma_last_piece;
use crate::scan::lemma_piece_step;
use crate::scan::lemma_pieces_exist;
use crate::scan::pieces;
use vstd::prelude::*;

verus! {

/// What separates the language codes of a list.
pub const SEPARATOR: char = ',';

/// The input and output file of one language.
#[derive(Debug, PartialEq, Eq)]
pub struct FileJob {
    pub language: String,
    pub input: String,
    pub output: String,
}

/// The outcome of one language's pipeline.
#[derive(Debug, PartialEq, Eq)]
pub struct JobReport {
    pub language: String,
    pub result: Result<PipelineStats, PipelineError>,
}

/// The fields of a separated list: the pieces between the separators. A
/// list without separator is one field, so an empty list is one empty field.
pub open spec fn fields_of(list: Seq<char>) -> Seq<Seq<char>> {
    pieces(list, SEPARATOR)
}

/// The path of a corpus file: `<dir>/<corpus>.<language>`.
pub open spec fn corpus_path(dir: Seq<char>, corpus: Seq<char>, language: Seq<char>) -> Seq<char> {
    dir + seq!['/'] + corpus + seq!['.'] + language
}

/// Whether `job` is the job of `language` for the given corpus and
/// directories.
pub open spec fn job_for(
    job: FileJob,
    corpus: Seq<char>,
    language: Seq<char>,
    input_dir: Seq<char>,
    output_dir: Seq<char>,
) -> bool {
    &&& job.language@ == language
    &&& job.input@ == corpus_path(input_dir, corpus, language)
    &&& job.output@ == corpus_path(output_dir, corpus, language)
}

/// Whether every report is a success.
pub open spec fn all_succeeded(reports: Seq<JobReport>) -> bool {
    forall|i: int| 0 <= i < reports.len() ==> (#[trigger] reports[i]).result is Ok
}

/// Splits a list of language codes at each separator.
pub fn split_languages(list: &str) -> (res: Vec<String>)
    ensures
        texts(res@) == fields_of(list@),
{
    let n = list.unicode_len();
    let ghost all = fields_of(list@);
    let mut out: Vec<String> = Vec::new();
    let mut start: usize = 0;
    let mut i: usize = 0;
    proof {
        lemma_pieces_exist(list@, SEPARATOR);
        assert(list@.skip(0) =~= list@);
        assert(all.skip(0) =~= all);
    }
    while i < n
        invariant
            n == list@.len(),
            all == fields_of(list@),
            start <= i <= n,
            forall|j: int| start <= j < i ==> list@[j] != SEPARATOR,
            out@.len() < all.len(),
            all.skip(out@.len() as int) == fields_of(list@.skip(start as int)),
            forall|k: int| 0 <= k < out@.len() ==> (#[trigger] out@[k])@ == all[k],
        decreases n - i,
    {
        if list.get_char(i) == SEPARATOR {
            let field = list.substring_char(start, i);
            proof {
                lemma_piece_step(list@, SEPARATOR, out@.len() as int, start as int, i as int);
            }
            out.push(field.to_owned());
            start = i + 1;
        }
        i += 1;
    }
    let field = list.substring_char(start, n);
    proof {
        lemma_last_piece(list@, SEPARATOR, out@.len() as int, start as int);
    }
    out.push(field.to_owned());
    proof {
        assert(texts(out@) =~= all);
    }
    out
}

/// The path `<dir>/<corpus>.<language>`.
pub fn corpus_file(dir: &str, corpus: &str, language: &str) -> (res: String)
    ensures
        res@ == corpus_path(dir@, corpus@, language@),
{
    let mut path = dir.to_owned();
    path.append("/");
    path.append(corpus);
    path.append(".");
    path.append(language);
    proof {
        reveal_strlit("/");
        reveal_strlit(".");
    }
    path
}

/// One job per language code, in the order of the codes: it reads
/// `<input_dir>/<corpus>.<language>` and writes
/// `<output_dir>/<corpus>.<language>`.
pub fn plan_jobs(corpus: &str, languages: &Vec<String>, input_dir: &str, output_dir: &str) -> (res:
    Vec<FileJob>)
    ensures
        res@.len() == languages@.len(),
        forall|i: int|
            0 <= i < res@.len() ==> job_for(
                #[trigger] res@[i],
                corpus@,
                languages@[i]@,
                input_dir@,
                output_dir@,
            ),
{
    let mut jobs: Vec<FileJob> = Vec::new();
    let mut i: usize = 0;
    while i < languages.len()
        invariant
            i <= languages.len(),
            jobs@.len() == i,
            forall|k: int|
                0 <= k < jobs@.len() ==> job_for(
                    #[trigger] jobs@[k],
                    corpus@,
                    languages@[k]@,
                    input_dir@,
                    output_dir@,
                ),
        decreases languages.len() - i,
    {
        let language = languages[i].as_str();
        let job = FileJob {
            language: language.to_owned(),
            input: corpus_file(input_dir, corpus, language),
            output: corpus_file(output_dir, corpus, language),
        };
        jobs.push(job);
        i += 1;
    }
    jobs
}

/// Whether the run succeeded: it did if and only if every language did.
pub fn run_succeeded(reports: &Vec<JobReport>) -> (res: bool)
    ensures
        res == all_succeeded(reports@),
{
    let mut i: usize = 0;
    while i < reports.len()
        invariant
            i <= reports.len(),
            forall|k: int| 0 <= k < i ==> (#[trigger] reports@[k]).result is Ok,
        decreases reports.len() - i,
    {
        if reports[i].result.is_err() {
            return false;
        }
        i += 1;
    }
    true
}

} // verus!

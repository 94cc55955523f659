//! The file pipeline: from the content of one input file to the lines of its
//! output file and the counts of what was read and skipped.

use crate::line::process_line;
use crate::line::LineOutcome;
use crate::model::texts;
use crate::model::PatternModel;
use crate::patterns::PatternSet;
use crate::text::all_text;
use crate::text::decode_lines;
use crate::text::decoded;
use crate::text::first_undecodable;
use crate::text::lines_of;
use crate::text::render_lines;
use crate::text::rendered;
use vstd::arithmetic::div_mod::lemma_fundamental_div_mod;
use vstd::arithmetic::div_mod::lemma_mod_bound;
use vstd::prelude::*;

verus! {

/// Why the pipeline of one file failed.
#[derive(Debug, PartialEq, Eq)]
pub enum PipelineError {
    /// The input file could not be opened or read.
    InputOpen { reason: String },
    /// The output file could not be created or written.
    OutputOpen { reason: String },
    /// The line with this number, counted from 1, is not valid text.
    LineDecode { line: usize },
}

/// The counts of one file: lines read and lines skipped. No more lines are
/// skipped than were read.
#[derive(Debug, Clone, Copy, PartialEq, Eq)]
pub struct PipelineStats {
    total: usize,
    skipped: usize,
}

/// Retained lines as hundredths of a percent of all lines, rounded to the
/// nearest.
pub open spec fn retention_of(retained: nat, total: nat) -> int {
    (retained as int * 10000 + total as int / 2) / (total as int)
}

impl PipelineStats {
    #[verifier::type_invariant]
    spec fn consistent(self) -> bool {
        self.skipped <= self.total
    }

    /// The number of lines read.
    pub closed spec fn total_lines(self) -> nat {
        self.total as nat
    }

    /// The number of lines dropped.
    pub closed spec fn skipped_lines(self) -> nat {
        self.skipped as nat
    }

    /// The number of lines written: those read and not dropped.
    pub open spec fn retained_lines(self) -> int {
        self.total_lines() - self.skipped_lines()
    }

    /// The counts of a file of which nothing was read yet.
    pub fn new() -> (res: PipelineStats)
        ensures
            res.total_lines() == 0,
            res.skipped_lines() == 0,
    {
        PipelineStats { total: 0, skipped: 0 }
    }

    /// Counts one more line, as skipped where `dropped` says so.
    pub fn count(&mut self, dropped: bool)
        requires
            old(self).total_lines() < usize::MAX,
        ensures
            final(self).total_lines() == old(self).total_lines() + 1,
            final(self).skipped_lines() == old(self).skipped_lines() + if dropped {
                1nat
            } else {
                0nat
            },
    {
        proof {
            use_type_invariant(&*self);
        }
        let skipped = if dropped {
            self.skipped + 1
        } else {
            self.skipped
        };
        *self = PipelineStats { total: self.total + 1, skipped };
    }

    pub fn total(&self) -> (res: usize)
        ensures
            res == self.total_lines(),
    {
        self.total
    }

    pub fn skipped(&self) -> (res: usize)
        ensures
            res == self.skipped_lines(),
            res <= self.total_lines(),
    {
        proof {
            use_type_invariant(self);
        }
        self.skipped
    }

    /// The number of lines written.
    pub fn retained(&self) -> (res: usize)
        ensures
            res == self.retained_lines(),
            res + self.skipped_lines() == self.total_lines(),
    {
        proof {
            use_type_invariant(self);
        }
        self.total - self.skipped
    }

    /// The share of lines written, in hundredths of a percent. There is none
    /// for a file without lines.
    pub fn retention(&self) -> (res: Option<u32>)
        ensures
            res is None <==> self.total_lines() == 0,
            res matches Some(share) ==> share == retention_of(
                self.retained_lines() as nat,
                self.total_lines(),
            ) && share <= 10000,
    {
        proof {
            use_type_invariant(self);
        }
        if self.total == 0 {
            return None;
        }
        let total = self.total as u128;
        let retained = (self.total - self.skipped) as u128;
        let scaled: u128 = retained * 10000 + total / 2;
        let share: u128 = scaled / total;
        proof {
            lemma_retention_bound(retained as nat, total as nat);
        }
        Some(share as u32)
    }
}

/// The lines to write for one file, with the counts of that file. There are
/// as many lines as the counts call retained.
#[derive(Debug)]
pub struct CleanedFile {
    lines: Vec<String>,
    stats: PipelineStats,
}

impl CleanedFile {
    #[verifier::type_invariant]
    spec fn balanced(self) -> bool {
        self.lines@.len() == self.stats.retained_lines()
    }

    /// The lines to write, in order.
    pub closed spec fn text(self) -> Seq<Seq<char>> {
        texts(self.lines@)
    }

    /// The counts of the file.
    pub closed spec fn counts(self) -> PipelineStats {
        self.stats
    }

    /// Whether these are the lines and counts that `patterns` gives for the
    /// input `lines`.
    pub open spec fn cleans(self, patterns: PatternModel, lines: Seq<Seq<char>>) -> bool {
        &&& self.text() == patterns.kept(lines)
        &&& self.counts().total_lines() == lines.len()
        &&& self.counts().skipped_lines() == patterns.skipped(lines)
    }

    /// The result for a file of which nothing was read yet.
    pub fn new() -> (res: CleanedFile)
        ensures
            res.text() == Seq::<Seq<char>>::empty(),
            res.counts().total_lines() == 0,
            res.counts().skipped_lines() == 0,
    {
        CleanedFile { lines: Vec::new(), stats: PipelineStats::new() }
    }

    /// Takes in the outcome of the next line: a kept line is appended, a
    /// dropped one only counted.
    pub fn record(self, outcome: LineOutcome) -> (res: CleanedFile)
        requires
            self.counts().total_lines() < usize::MAX,
        ensures
            res.text() == match outcome@ {
                Some(line) => self.text().push(line),
                None => self.text(),
            },
            res.counts().total_lines() == self.counts().total_lines() + 1,
            res.counts().skipped_lines() == self.counts().skipped_lines() + if outcome@ is None {
                1nat
            } else {
                0nat
            },
    {
        proof {
            use_type_invariant(&self);
        }
        let CleanedFile { mut lines, mut stats } = self;
        match outcome {
            LineOutcome::Dropped => {
                stats.count(true);
            },
            LineOutcome::Kept(line) => {
                stats.count(false);
                lines.push(line);
            },
        }
        CleanedFile { lines, stats }
    }

    /// The lines to write, in order.
    pub fn lines(&self) -> (res: &Vec<String>)
        ensures
            texts(res@) == self.text(),
            res@.len() == self.counts().retained_lines(),
    {
        proof {
            use_type_invariant(self);
        }
        &self.lines
    }

    /// The content of the output file: each line followed by one line feed.
    pub fn render(&self) -> (res: String)
        ensures
            res@ == rendered(self.text()),
    {
        render_lines(&self.lines)
    }

    /// The counts of the file.
    pub fn stats(&self) -> (res: PipelineStats)
        ensures
            res == self.counts(),
            self.text().len() == res.retained_lines(),
    {
        proof {
            use_type_invariant(self);
        }
        self.stats
    }
}

/// Cleans the lines of one file: each line is classified in turn, the kept
/// ones stay in the order of the input, and every line is counted.
pub fn clean_lines(patterns: &PatternSet, lines: &Vec<String>) -> (res: CleanedFile)
    ensures
        res.cleans(patterns@, texts(lines@)),
{
    let ghost model = patterns@;
    let ghost input = texts(lines@);
    let mut cleaned = CleanedFile::new();
    let mut i: usize = 0;
    while i < lines.len()
        invariant
            i <= lines.len(),
            model == patterns@,
            input == texts(lines@),
            cleaned.cleans(model, input.take(i as int)),
        decreases lines.len() - i,
    {
        let outcome = process_line(patterns, lines[i].as_str());
        proof {
            input.lemma_filter_map_take_succ(model.outcome_fn(), i as int);
            assert(input.take(i + 1) =~= input.take(i as int).push(input[i as int]));
            input.take(i as int).lemma_filter_push(input[i as int], model.drops_fn());
        }
        let ghost before = cleaned;
        cleaned = cleaned.record(outcome);
        proof {
            let line = input[i as int];
            assert(before.text().push(model.rewrite(line)) =~= before.text() + seq![
                model.rewrite(line),
            ]);
        }
        i += 1;
    }
    proof {
        assert(input.take(i as int) =~= input);
    }
    cleaned
}

/// Cleans the content of one input file. The content is split into lines and
/// decoded first: where a line is not valid UTF-8 the whole file fails with
/// the number of the first such line, and nothing is cleaned. Otherwise the
/// decoded lines are cleaned.
pub fn clean_content(patterns: &PatternSet, content: &[u8]) -> (res: Result<
    CleanedFile,
    PipelineError,
>)
    ensures
        res is Ok <==> all_text(lines_of(content@)),
        match res {
            Ok(cleaned) => cleaned.cleans(patterns@, decoded(lines_of(content@))),
            Err(PipelineError::LineDecode { line }) => line >= 1 && first_undecodable(
                lines_of(content@),
                line - 1,
            ),
            Err(_) => false,
        },
{
    match decode_lines(content) {
        Ok(lines) => Ok(clean_lines(patterns, &lines)),
        Err(error) => Err(PipelineError::LineDecode { line: error.line }),
    }
}

/// No more than all lines are retained: the share is at most 100 percent.
pub proof fn lemma_retention_bound(retained: nat, total: nat)
    requires
        retained <= total,
        total > 0,
    ensures
        0 <= retention_of(retained, total) <= 10000,
{
    let scaled = retained as int * 10000 + total as int / 2;
    let t = total as int;
    assert(0 <= scaled / t <= 10000) by (nonlinear_arith)
        requires
            t > 0,
            0 <= scaled < 10001 * t,
    ;
}

/// The share is the hundredth of a percent nearest to the exact ratio: it is
/// off by no more than half a hundredth.
pub proof fn lemma_retention_nearest(retained: nat, total: nat)
    requires
        total > 0,
    ensures
        2 * (retention_of(retained, total) * total - retained * 10000) <= total,
        2 * (retained * 10000 - retention_of(retained, total) * total) <= total,
{
    let scaled = retained as int * 10000 + total as int / 2;
    let t = total as int;
    let share = retention_of(retained, total);
    lemma_fundamental_div_mod(scaled, t);
    lemma_mod_bound(scaled, t);
    assert(share * t == t * share) by (nonlinear_arith);
    assert(scaled == share * t + scaled % t);
}

} // verus!

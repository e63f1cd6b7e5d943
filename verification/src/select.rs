//! The selection controller: assigns link tokens to one displayed result
//! set and resolves one typed token back to a row.
//!
//! Entering a selection re-orders the result set ascending by id (oldest
//! first) and gives ascending index `i` of `n` rows the rank `n - i`, so
//! the most recently created row is always rank 1. Resolution trims the
//! input line; an empty line is a cancellation, a malformed token an
//! error, an out-of-range rank a silent no-op.

use vstd::prelude::*;

use crate::error::ShiError;
use crate::link::from_base32;
use crate::link::to_base32;
use crate::link::token_of;
use crate::link::value_of;
use crate::store::History;
use crate::store::rows_model;
use crate::store::sorted_desc;

verus! {

/// One displayed row: an entry together with its link token.
pub struct RankedRow {
    /// The entry shown.
    pub entry: History,
    /// The token that selects it.
    pub link: String,
}

/// The outcome of resolving one selection input.
pub enum SelectionOutcome {
    /// The selection ended without a row: an empty line (`Input`, the user
    /// cancelled) or a malformed token (`ParseInt`).
    Aborted(ShiError),
    /// The token named a rank beyond what was shown: nothing selected.
    NoMatch,
    /// The selected row's command text, to hand to the copy collaborator.
    Copied(String),
    /// No copy program is configured: the hint to show instead of copying.
    CopySkipped(String),
}

/// How one trimmed input line resolves against `n` displayed rows.
pub ghost enum ResolveCase {
    /// Empty input: cancellation.
    Empty,
    /// Input that is no token.
    BadToken,
    /// A rank outside `[1, n]`: nothing selected.
    OutOfRange,
    /// The ascending index of the selected row.
    Hit(int),
}

/// Classifies one trimmed input line against `n` displayed rows: rank `r`
/// in `[1, n]` selects ascending index `n - r`.
pub open spec fn resolve_case(t: Seq<char>, n: int) -> ResolveCase {
    if t.len() == 0 {
        ResolveCase::Empty
    } else {
        match value_of(t) {
            Option::None => ResolveCase::BadToken,
            Option::Some(rank) => if 1 <= rank <= n {
                ResolveCase::Hit(n - rank)
            } else {
                ResolveCase::OutOfRange
            },
        }
    }
}

/// What the controller must answer for one trimmed input line: each case
/// of `resolve_case` pins the outcome.
pub open spec fn resolution_of(
    copy_program: Option<String>,
    t: Seq<char>,
    rows: Seq<RankedRow>,
    r: SelectionOutcome,
) -> bool {
    match resolve_case(t, rows.len() as int) {
        ResolveCase::Empty => r == SelectionOutcome::Aborted(ShiError::Input),
        ResolveCase::BadToken => r == SelectionOutcome::Aborted(ShiError::ParseInt),
        ResolveCase::OutOfRange => r == SelectionOutcome::NoMatch,
        ResolveCase::Hit(i) => match copy_program {
            Option::Some(_) => r == SelectionOutcome::Copied(rows[i].entry.command),
            Option::None => r is CopySkipped,
        },
    }
}

/// Cancellation: an input line that is empty after trimming always aborts
/// the selection as a cancellation, and nothing is ever copied.
pub proof fn lemma_empty_input_aborts(
    copy_program: Option<String>,
    t: Seq<char>,
    rows: Seq<RankedRow>,
    r: SelectionOutcome,
)
    requires
        t.len() == 0,
        resolution_of(copy_program, t, rows, r),
    ensures
        r == SelectionOutcome::Aborted(ShiError::Input),
        !(r is Copied),
{
}

/// Enters a selection: re-orders the rows (given most recent first)
/// ascending by id, and assigns ascending index `i` the rank `n - i` and
/// its link token, so the most recent row gets rank 1.
pub fn begin_selection(rows: Vec<History>) -> (r: Vec<RankedRow>)
    requires
        sorted_desc(rows_model(rows@)),
    ensures
        r@.len() == rows@.len(),
        forall|i: int|
            0 <= i < r@.len() ==> (#[trigger] r@[i]).entry == rows@[rows@.len() - 1 - i],
        forall|i: int| 0 <= i < r@.len() ==> (#[trigger] r@[i]).link@ == token_of(rows@.len() - i),
{
    let ghost all = rows@;
    let n = rows.len();
    let mut rest = rows;
    let mut out: Vec<RankedRow> = Vec::new();
    while out.len() < n
        invariant
            n == all.len(),
            out@.len() <= n,
            rest@ == all.take(n - out@.len()),
            forall|t: int| 0 <= t < out@.len() ==> (#[trigger] out@[t]).entry == all[n - 1 - t],
            forall|t: int|
                0 <= t < out@.len() ==> (#[trigger] out@[t]).link@ == token_of(n - t),
        decreases n - out.len(),
    {
        let j = out.len();
        let link = to_base32(n - j);
        match rest.pop() {
            Option::Some(entry) => {
                proof {
                    assert(all.take(n - j).last() == all[n - 1 - j]);
                    assert(all.take(n - j).drop_last() =~= all.take(n - (j + 1)));
                }
                out.push(RankedRow { entry: entry, link: link });
            },
            Option::None => {
                proof {
                    assert(false);
                }
            },
        }
    }
    out
}

/// A name for what `str::trim` returns: the input without its leading and
/// trailing whitespace. The result depends on the characters alone.
pub uninterp spec fn trim_of(s: Seq<char>) -> Seq<char>;

/// Relies on `str::trim`: returns the input with leading and trailing
/// whitespace removed; in particular, trimming the empty string yields the
/// empty string.
#[verifier::external_body]
fn trim_line(s: &str) -> (r: &str)
    ensures
        r@ == trim_of(s@),
        s@.len() == 0 ==> r@.len() == 0,
{
    s.trim()
}

/// The selection controller. The copy program is explicit configuration
/// handed in at construction; browsing without one is a supported mode.
pub struct SelectionController {
    /// The copy program named by the environment, or `None` when unset.
    pub copy_program: Option<String>,
}

impl SelectionController {
    /// A controller with the given copy-program configuration.
    pub fn new(copy_program: Option<String>) -> (r: SelectionController)
        ensures
            r.copy_program == copy_program,
    {
        SelectionController { copy_program: copy_program }
    }

    /// Resolves one already trimmed input line against the displayed rows.
    pub fn resolve_trimmed(&self, trimmed: &str, rows: &Vec<RankedRow>) -> (r: SelectionOutcome)
        ensures
            resolution_of(self.copy_program, trimmed@, rows@, r),
            r matches SelectionOutcome::CopySkipped(h) ==> h@
                == "If you'd like to copy a command to the clipboard, set any clipboard utility such as xclip or wl-copy as $SHI_CLIP."@,
    {
        let n = rows.len();
        if trimmed.unicode_len() == 0 {
            return SelectionOutcome::Aborted(ShiError::Input);
        }
        match from_base32(trimmed) {
            Option::None => SelectionOutcome::Aborted(ShiError::ParseInt),
            Option::Some(rank) => {
                if 1 <= rank && rank <= n {
                    let i = n - rank;
                    match &self.copy_program {
                        Option::Some(_) => SelectionOutcome::Copied(rows[i].entry.command.clone()),
                        Option::None => SelectionOutcome::CopySkipped(
                            String::from_str(
                                "If you'd like to copy a command to the clipboard, set any clipboard utility such as xclip or wl-copy as $SHI_CLIP.",
                            ),
                        ),
                    }
                } else {
                    SelectionOutcome::NoMatch
                }
            },
        }
    }

    /// Resolves one raw input line: trims it, then decodes the token and
    /// looks the rank up. An empty trimmed line cancels, a malformed token
    /// aborts, an out-of-range rank selects nothing.
    pub fn resolve_selection(&self, line: &str, rows: &Vec<RankedRow>) -> (r: SelectionOutcome)
        ensures
            resolution_of(self.copy_program, trim_of(line@), rows@, r),
            r matches SelectionOutcome::CopySkipped(h) ==> h@
                == "If you'd like to copy a command to the clipboard, set any clipboard utility such as xclip or wl-copy as $SHI_CLIP."@,
    {
        let trimmed = trim_line(line);
        self.resolve_trimmed(trimmed, rows)
    }
}

} // verus!

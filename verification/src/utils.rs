//! Helpers shared by the ledger's operations.

use crate::clock::{date_text, spec_date_text, spec_time_text, time_text, utc_now, Moment};
use crate::error::DbError;
use crate::pattern::{
    capture_first_groups, first_groups, is_byte_pattern, is_pattern, replace_all, replaced_all,
    text_of_bytes,
};
use crate::text::{decimal, split, split_on, to_decimal};
use crate::version_control::{
    spec_checkout_step, spec_restore_step, CheckoutLog, CheckoutStep, RestoreLog, RestoreStep,
};
use vstd::prelude::*;
use vstd::std_specs::cmp::PartialEqSpec;
use vstd::utf8::{decode_utf8, valid_utf8};

verus! {

/// Whether `x` equals some element of `s`.
pub open spec fn occurs_in<T: PartialEq>(x: T, s: Seq<T>) -> bool {
    exists|j: int| 0 <= j < s.len() && #[trigger] x.eq_spec(&s[j])
}

/// Whether every element of `lhs` equals some element of `rhs`.
pub open spec fn all_occur_in<T: PartialEq>(lhs: Seq<T>, rhs: Seq<T>) -> bool {
    forall|i: int| 0 <= i < lhs.len() ==> occurs_in(#[trigger] lhs[i], rhs)
}

/// Whether two lists have one length and hold the same elements, in
/// whatever order and however often each of them repeats.
pub open spec fn same_elements<T: PartialEq>(lhs: Seq<T>, rhs: Seq<T>) -> bool {
    &&& lhs.len() == rhs.len()
    &&& all_occur_in(lhs, rhs)
    &&& all_occur_in(rhs, lhs)
}

/// A list and a reordering of it hold the same elements, where every
/// element equals itself.
pub proof fn lemma_reordering_has_same_elements<T: PartialEq>(lhs: Seq<T>, rhs: Seq<T>)
    requires
        lhs.to_multiset() == rhs.to_multiset(),
        forall|x: T| #[trigger] x.eq_spec(&x),
    ensures
        same_elements(lhs, rhs),
{
    lhs.to_multiset_ensures();
    rhs.to_multiset_ensures();
    assert forall|i: int| 0 <= i < lhs.len() implies occurs_in(#[trigger] lhs[i], rhs) by {
        assert(lhs.contains(lhs[i]));
        assert(rhs.to_multiset().count(lhs[i]) > 0);
        assert(rhs.contains(lhs[i]));
        let j = choose|j: int| 0 <= j < rhs.len() && rhs[j] == lhs[i];
        assert(lhs[i].eq_spec(&rhs[j]));
    }
    assert forall|i: int| 0 <= i < rhs.len() implies occurs_in(#[trigger] rhs[i], lhs) by {
        assert(rhs.contains(rhs[i]));
        assert(lhs.to_multiset().count(rhs[i]) > 0);
        assert(lhs.contains(rhs[i]));
        let j = choose|j: int| 0 <= j < lhs.len() && lhs[j] == rhs[i];
        assert(rhs[i].eq_spec(&lhs[j]));
    }
}

/// Whether two lists hold the same elements does not depend on which of
/// them is asked, where the equality of the elements does not.
pub proof fn lemma_same_elements_is_symmetric<T: PartialEq>(lhs: Seq<T>, rhs: Seq<T>)
    ensures
        same_elements(lhs, rhs) == same_elements(rhs, lhs),
{
}

/// Whether every element of `lhs` equals some element of `rhs`.
fn all_found<T>(lhs: &[T], rhs: &[T]) -> (r: bool) where T: PartialEq
    ensures
        T::obeys_eq_spec() ==> r == all_occur_in(lhs@, rhs@),
{
    let mut i: usize = 0;
    while i < lhs.len()
        invariant
            i <= lhs@.len(),
            T::obeys_eq_spec() ==> all_occur_in(lhs@.take(i as int), rhs@),
        decreases lhs@.len() - i,
    {
        let mut found = false;
        let mut j: usize = 0;
        while j < rhs.len() && !found
            invariant
                i < lhs@.len(),
                j <= rhs@.len(),
                T::obeys_eq_spec() ==> (found ==> occurs_in(lhs@[i as int], rhs@)),
                T::obeys_eq_spec() ==> (!found ==> forall|k: int|
                    0 <= k < j ==> !#[trigger] lhs@[i as int].eq_spec(&rhs@[k])),
            decreases rhs@.len() - j + (if found { 0int } else { 1int }),
        {
            if lhs[i] == rhs[j] {
                found = true;
            } else {
                j += 1;
            }
        }
        if !found {
            proof {
                if T::obeys_eq_spec() {
                    assert(!occurs_in(lhs@[i as int], rhs@));
                    assert(!all_occur_in(lhs@, rhs@));
                }
            }
            return false;
        }
        proof {
            if T::obeys_eq_spec() {
                assert forall|k: int| 0 <= k < i + 1 implies occurs_in(
                    #[trigger] lhs@.take(i + 1)[k],
                    rhs@,
                ) by {
                    if k < i {
                        assert(lhs@.take(i + 1)[k] == lhs@.take(i as int)[k]);
                    }
                }
            }
        }
        i += 1;
    }
    assert(lhs@.take(i as int) == lhs@);
    true
}

/// Whether the slices have one length and hold the same elements, in
/// whatever order: every element of each occurs in the other. Of slices
/// without repeated elements this says that one is a permutation of the
/// other. It takes time quadratic in the length.
pub fn is_permutation_small<T>(lhs: &[T], rhs: &[T]) -> (r: bool) where T: PartialEq
    ensures
        lhs@.len() != rhs@.len() ==> !r,
        T::obeys_eq_spec() ==> r == same_elements(lhs@, rhs@),
{
    if lhs.len() != rhs.len() {
        return false;
    }
    all_found(lhs, rhs) && all_found(rhs, lhs)
}

/// A piece of a `;`-separated list: nothing where the piece is empty.
pub open spec fn optional_text(piece: Seq<char>) -> Option<Seq<char>> {
    if piece.len() == 0 {
        None
    } else {
        Some(piece)
    }
}

/// What `parse_kv_opt_string` returns. A given text is cut at every `;`,
/// and each empty piece stands for no value. Without a text the result is
/// `num_default_entries` times no value, and once no value where that
/// number is missing too.
pub open spec fn spec_parse_kv_opt_string(
    s: Option<Seq<char>>,
    num_default_entries: Option<usize>,
) -> Seq<Option<Seq<char>>> {
    match s {
        Some(t) => split(t, ';').map_values(|piece: Seq<char>| optional_text(piece)),
        None => Seq::new(
            match num_default_entries {
                Some(n) => n as nat,
                None => 1,
            },
            |i: int| None,
        ),
    }
}

/// Reads the per-script values of a transform from one text: one value for
/// each script, the values separated by `;`, an empty one standing for a
/// script without a value.
pub fn parse_kv_opt_string(s: Option<&str>, num_default_entries: Option<usize>) -> (r: Vec<
    Option<String>,
>)
    ensures
        r.deep_view() == spec_parse_kv_opt_string(
            match s {
                Some(t) => Some(t@),
                None => None,
            },
            num_default_entries,
        ),
        r.len() == r.deep_view().len(),
{
    let mut r: Vec<Option<String>> = Vec::new();
    match s {
        Some(t) => {
            let pieces = split_on(t, ';');
            let mut i: usize = 0;
            while i < pieces.len()
                invariant
                    i <= pieces.len(),
                    pieces.deep_view() == split(t@, ';'),
                    r.deep_view() == pieces.deep_view().take(i as int).map_values(
                        |piece: Seq<char>| optional_text(piece),
                    ),
                decreases pieces.len() - i,
            {
                let ghost before = r.deep_view();
                let value = if pieces[i].as_str().is_empty() {
                    None
                } else {
                    Some(pieces[i].clone())
                };
                r.push(value);
                assert(r.deep_view() == before.push(optional_text(pieces.deep_view()[i as int])));
                i += 1;
            }
            assert(pieces.deep_view().take(i as int) == pieces.deep_view());
        },
        None => {
            let count = match num_default_entries {
                Some(n) => n,
                None => 1,
            };
            let mut i: usize = 0;
            while i < count
                invariant
                    i <= count,
                    r.deep_view() == Seq::new(i as nat, |k: int| None::<Seq<char>>),
                decreases count - i,
            {
                let ghost before = r.deep_view();
                r.push(None);
                assert(r.deep_view() == before.push(None));
                i += 1;
            }
        },
    }
    r
}

/// Whether the script at position `index` can be run: `Ok` where its path
/// exists and is a regular file, else the error that says what is wrong.
pub fn verify_file_path(exists: bool, is_file: bool, index: usize) -> (r: Result<(), DbError>)
    ensures
        r == (if !exists {
            Err::<(), DbError>(DbError::ScriptMissing(index))
        } else if !is_file {
            Err(DbError::ScriptNotAFile(index))
        } else {
            Ok(())
        }),
{
    if !exists {
        return Err(DbError::ScriptMissing(index));
    }
    if !is_file {
        return Err(DbError::ScriptNotAFile(index));
    }
    Ok(())
}

/// The pattern of the place in an argument text that stands for the date.
pub const DATE_TOKEN: &'static str = r"\{psidb::date\}";

/// The pattern of the place in an argument text that stands for the time.
pub const TIME_TOKEN: &'static str = r"\{psidb::time\}";

/// The pattern of the place in an argument text that stands for the id of
/// the dataset that is being made.
pub const ID_TOKEN: &'static str = r"\{psidb::id\}";

/// The pattern of a line by which a script names a path that it has written:
/// the marker, a space, and the path up to the end of the line.
pub const OUT_PATH_MARKER: &'static str = r"psidb::out_path (.*)";

/// `text` with every match of the pattern `token` replaced by `value`; or
/// nothing, where the pattern engine refuses `token`.
pub open spec fn spec_fill_token(token: Seq<char>, text: Seq<char>, value: Seq<char>) -> Option<
    Seq<char>,
> {
    if is_pattern(token) {
        Some(replaced_all(token, text, value))
    } else {
        None
    }
}

/// Replaces every match of the pattern `token` in `text` by `value`.
pub fn fill_token(token: &str, text: &str, value: &str) -> (r: Result<String, DbError>)
    ensures
        match spec_fill_token(token@, text@, value@) {
            Some(filled) => r matches Ok(t) && t@ == filled,
            None => r == Err::<String, DbError>(DbError::BadPattern),
        },
{
    match replace_all(token, text, value) {
        Ok(t) => Ok(t),
        Err(_) => Err(DbError::BadPattern),
    }
}

/// The argument text `s` with the date token replaced by `date`, then the
/// time token by `time`, then the id token by the decimal form of `id`; or
/// nothing, where the pattern engine refuses one of the three tokens.
pub open spec fn spec_parse_args(s: Seq<char>, id: u64, date: Seq<char>, time: Seq<char>) -> Option<
    Seq<char>,
> {
    match spec_fill_token(DATE_TOKEN@, s, date) {
        Some(dated) => match spec_fill_token(TIME_TOKEN@, dated, time) {
            Some(timed) => spec_fill_token(ID_TOKEN@, timed, decimal(id as nat)),
            None => None,
        },
        None => None,
    }
}

/// Fills in the argument text `s` for the dataset `id`, on the date `date`
/// at the time `time`.
pub fn parse_args_at(s: &str, id: u64, date: &str, time: &str) -> (r: Result<String, DbError>)
    ensures
        match spec_parse_args(s@, id, date@, time@) {
            Some(text) => r matches Ok(t) && t@ == text,
            None => r == Err::<String, DbError>(DbError::BadPattern),
        },
{
    let dated = match fill_token(DATE_TOKEN, s, date) {
        Ok(t) => t,
        Err(e) => {
            return Err(e);
        },
    };
    let timed = match fill_token(TIME_TOKEN, dated.as_str(), time) {
        Ok(t) => t,
        Err(e) => {
            return Err(e);
        },
    };
    let number = to_decimal(id);
    fill_token(ID_TOKEN, timed.as_str(), number.as_str())
}

/// Fills in the argument text `s` for the dataset `id`, on the present date
/// at the present time.
pub fn parse_args(s: &str, id: u64) -> (r: Result<String, DbError>)
    ensures
        exists|now: Moment|
            now.in_range() && (match #[trigger] spec_parse_args(
                s@,
                id,
                spec_date_text(now),
                spec_time_text(now),
            ) {
                Some(text) => r matches Ok(t) && t@ == text,
                None => r == Err::<String, DbError>(DbError::BadPattern),
            }),
{
    let now = utc_now();
    let date = date_text(&now);
    let time = time_text(&now);
    parse_args_at(s, id, date.as_str(), time.as_str())
}

/// The texts that the groups of a search encode. Every group must have
/// taken part in its match and hold valid UTF-8; the script at `index` is
/// blamed where one does not.
pub open spec fn spec_texts_of_groups(groups: Seq<Option<Seq<u8>>>, index: usize) -> Result<
    Seq<Seq<char>>,
    DbError,
> {
    if forall|i: int| 0 <= i < groups.len() ==> is_text(#[trigger] groups[i]) {
        Ok(Seq::new(groups.len(), |i: int| decode_utf8(groups[i]->0)))
    } else {
        Err(DbError::OutputNotText(index))
    }
}

/// Whether a group took part in its match and holds valid UTF-8.
pub open spec fn is_text(group: Option<Seq<u8>>) -> bool {
    group matches Some(bytes) && valid_utf8(bytes)
}

/// Turns the groups of a search into texts.
pub fn texts_of_groups(groups: &Vec<Option<Vec<u8>>>, index: usize) -> (r: Result<
    Vec<String>,
    DbError,
>)
    ensures
        match spec_texts_of_groups(groups.deep_view(), index) {
            Ok(texts) => r matches Ok(v) && v.deep_view() == texts,
            Err(e) => r == Err::<Vec<String>, DbError>(e),
        },
{
    let mut texts: Vec<String> = Vec::new();
    let mut i: usize = 0;
    while i < groups.len()
        invariant
            i <= groups.len(),
            forall|k: int| 0 <= k < i ==> is_text(#[trigger] groups.deep_view()[k]),
            texts.deep_view() == Seq::new(
                i as nat,
                |k: int| decode_utf8(groups.deep_view()[k]->0),
            ),
        decreases groups.len() - i,
    {
        let text = match &groups[i] {
            Some(bytes) => {
                let copy = bytes.clone();
                assert(copy@ =~= bytes@);
                assert(bytes.deep_view() =~= bytes@);
                text_of_bytes(copy)
            },
            None => None,
        };
        assert(groups.deep_view()[i as int] == groups@[i as int].deep_view());
        match text {
            Some(t) => {
                let ghost before = texts.deep_view();
                texts.push(t);
                assert(texts.deep_view() == before.push(t@));
            },
            None => {
                assert(!is_text(groups.deep_view()[i as int]));
                return Err(DbError::OutputNotText(index));
            },
        }
        i += 1;
    }
    Ok(texts)
}

/// The texts that the first group of `marker` matches in `stdout`, in the
/// order of the matches; the script at `index` is blamed where one is not
/// text.
pub open spec fn spec_marked_texts(marker: Seq<char>, stdout: Seq<u8>, index: usize) -> Result<
    Seq<Seq<char>>,
    DbError,
> {
    if is_byte_pattern(marker) {
        spec_texts_of_groups(first_groups(marker, stdout), index)
    } else {
        Err(DbError::BadPattern)
    }
}

/// Reads the texts that the first group of `marker` matches in `stdout`.
pub fn marked_texts(marker: &str, stdout: &[u8], index: usize) -> (r: Result<Vec<String>, DbError>)
    ensures
        match spec_marked_texts(marker@, stdout@, index) {
            Ok(texts) => r matches Ok(v) && v.deep_view() == texts,
            Err(e) => r == Err::<Vec<String>, DbError>(e),
        },
{
    match capture_first_groups(marker, stdout) {
        Ok(groups) => texts_of_groups(&groups, index),
        Err(_) => Err(DbError::BadPattern),
    }
}

/// The paths that a script names in what it wrote to its standard output,
/// in the order in which it names them; the script at `index` is blamed
/// where one is not text.
pub open spec fn spec_output_paths(stdout: Seq<u8>, index: usize) -> Result<
    Seq<Seq<char>>,
    DbError,
> {
    spec_marked_texts(OUT_PATH_MARKER@, stdout, index)
}

/// Reads the paths that a script names in what it wrote to its standard
/// output.
pub fn output_paths(stdout: &[u8], index: usize) -> (r: Result<Vec<String>, DbError>)
    ensures
        match spec_output_paths(stdout@, index) {
            Ok(texts) => r matches Ok(v) && v.deep_view() == texts,
            Err(e) => r == Err::<Vec<String>, DbError>(e),
        },
{
    marked_texts(OUT_PATH_MARKER, stdout, index)
}

/// The next step of bringing a repository to a pinned commit in a way that
/// can be undone, given what has happened so far.
pub fn safe_git_checkout_commit(log: &CheckoutLog) -> (r: CheckoutStep)
    ensures
        r == spec_checkout_step(*log),
{
    match log.head_read {
        None => CheckoutStep::ReadHead,
        Some(false) => CheckoutStep::Failed,
        Some(true) => match log.stashed {
            None => CheckoutStep::Stash,
            Some(did_stash) => match log.detached {
                None => CheckoutStep::Detach,
                Some(true) => CheckoutStep::Ready,
                Some(false) => if did_stash && log.unstashed.is_none() {
                    CheckoutStep::Unstash
                } else {
                    CheckoutStep::Failed
                },
            },
        },
    }
}

/// The next step of bringing a repository back to where it was before the
/// checkout, given what has happened so far. `did_stash` says whether the
/// checkout stashed changes.
pub fn safe_git_checkout_commit_restore(did_stash: bool, log: &RestoreLog) -> (r: RestoreStep)
    ensures
        r == spec_restore_step(did_stash, *log),
{
    match log.restored {
        None => RestoreStep::RestoreHead,
        Some(false) => RestoreStep::Failed,
        Some(true) => if did_stash {
            match log.unstashed {
                None => RestoreStep::Unstash,
                Some(true) => RestoreStep::Ready,
                Some(false) => RestoreStep::Failed,
            }
        } else {
            RestoreStep::Ready
        },
    }
}

} // verus!

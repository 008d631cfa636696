//! Small settings: the idle re-lock, the language, saves waiting to be written.

use vstd::prelude::*;

use crate::catalog::Catalog;
use crate::number;
use crate::text;

verus! {

/// One second, in the nanoseconds that instants and durations are counted in.
pub const SECOND: u128 = 1_000_000_000;

/// One millisecond in nanoseconds.
pub const MILLISECOND: u128 = 1_000_000;

/// A reusable command or script with a name.
#[derive(Debug)]
pub struct Snippet {
    pub id: String,
    pub name: String,
    pub body: String,
}

impl Clone for Snippet {
    fn clone(&self) -> (r: Snippet)
        ensures
            r == *self,
    {
        Snippet { id: self.id.clone(), name: self.name.clone(), body: self.body.clone() }
    }
}

// ---- the idle re-lock ------------------------------------------------------------

/// Idle-timeout choices, in minutes. 0 = never re-lock.
pub const LOCK_TIMEOUT_STEPS: [u32; 7] = [0, 1, 5, 15, 30, 60, 120];

/// Idle timeout while none has been chosen.
pub const LOCK_TIMEOUT_DEFAULT: u32 = 15;

/// `mins` is one of the choices.
pub open spec fn is_step(mins: int) -> bool {
    exists|i: int| 0 <= i < 7 && #[trigger] LOCK_TIMEOUT_STEPS@[i] == mins
}

pub open spec fn distance(a: int, b: int) -> int {
    if a <= b {
        b - a
    } else {
        a - b
    }
}

/// `step` is the choice nearest to `mins`; of two as near, the lower.
pub open spec fn nearest_step(mins: int, step: int) -> bool {
    &&& is_step(step)
    &&& forall|s: int| #[trigger]
        is_step(s) ==> distance(step, mins) < distance(s, mins) || (distance(step, mins) == distance(
            s,
            mins,
        ) && step <= s)
}

/// Position of a choice in the list.
pub open spec fn step_index(step: int) -> int {
    choose|i: int| 0 <= i < 7 && #[trigger] LOCK_TIMEOUT_STEPS@[i] == step
}

/// The choice one further up or down the list; the ends stay where they are.
pub open spec fn next_step(step: int, up: bool) -> int {
    let i = step_index(step);
    let n = if up {
        if i + 1 < 7 { i + 1 } else { 6 }
    } else {
        if i > 0 { i - 1 } else { 0 }
    };
    LOCK_TIMEOUT_STEPS@[n] as int
}

proof fn lemma_steps()
    ensures
        LOCK_TIMEOUT_STEPS@ == seq![0u32, 1, 5, 15, 30, 60, 120],
{
    assert(LOCK_TIMEOUT_STEPS@ =~= seq![0u32, 1, 5, 15, 30, 60, 120]);
}

/// Snap an arbitrary minute count onto the nearest allowed choice; of two
/// that are as near, onto the shorter timeout.
pub fn clamp_lock_timeout(mins: u32) -> (r: u32)
    ensures
        nearest_step(mins as int, r as int),
{
    proof {
        lemma_steps();
    }
    let mut best: u32 = LOCK_TIMEOUT_STEPS[0];
    let mut i: usize = 1;
    assert(LOCK_TIMEOUT_STEPS@[0] == best);
    while i < 7
        invariant
            1 <= i <= 7,
            LOCK_TIMEOUT_STEPS@ == seq![0u32, 1, 5, 15, 30, 60, 120],
            is_step(best as int),
            forall|k: int|
                0 <= k < i ==> distance(best as int, mins as int) < distance(
                    #[trigger] LOCK_TIMEOUT_STEPS@[k] as int,
                    mins as int,
                ) || (distance(best as int, mins as int) == distance(
                    LOCK_TIMEOUT_STEPS@[k] as int,
                    mins as int,
                ) && best <= LOCK_TIMEOUT_STEPS@[k]),
            i < 7 ==> best < LOCK_TIMEOUT_STEPS@[i as int],
        decreases 7 - i,
    {
        let step: u32 = LOCK_TIMEOUT_STEPS[i];
        assert(LOCK_TIMEOUT_STEPS@[i as int] == step);
        let to_step: u32 = if step <= mins { mins - step } else { step - mins };
        let to_best: u32 = if best <= mins { mins - best } else { best - mins };
        if to_step < to_best {
            best = step;
        }
        i += 1;
    }
    best
}

/// Next value up or down the list of choices, saturating at both ends.
pub fn cycle_lock_timeout(current: u32, up: bool) -> (r: u32)
    ensures
        exists|cur: int| #[trigger]
            nearest_step(current as int, cur) && r == next_step(cur, up),
{
    proof {
        lemma_steps();
    }
    let cur: u32 = clamp_lock_timeout(current);
    let mut i: usize = 0;
    while i < 6 && LOCK_TIMEOUT_STEPS[i] != cur
        invariant
            i <= 6,
            LOCK_TIMEOUT_STEPS@ == seq![0u32, 1, 5, 15, 30, 60, 120],
            forall|k: int| 0 <= k < i ==> #[trigger] LOCK_TIMEOUT_STEPS@[k] != cur,
        decreases 6 - i,
    {
        i += 1;
    }
    assert(LOCK_TIMEOUT_STEPS@[i as int] == cur);
    assert(step_index(cur as int) == i);
    let n: usize = if up {
        if i + 1 < 7 { i + 1 } else { 6 }
    } else {
        if i > 0 { i - 1 } else { 0 }
    };
    let r: u32 = LOCK_TIMEOUT_STEPS[n];
    assert(r == next_step(cur as int, up));
    r
}

/// Is the vault due to re-lock after `idle` nanoseconds without input? Never
/// when the timeout is 0.
pub fn idle_lock_due(timeout_mins: u32, idle: u128) -> (due: bool)
    ensures
        due == (timeout_mins != 0 && idle >= timeout_mins * 60 * SECOND),
{
    if timeout_mins == 0 {
        return false;
    }
    assert(timeout_mins * 60 * SECOND <= u32::MAX as int * 60 * 1_000_000_000) by (nonlinear_arith)
        requires
            timeout_mins <= u32::MAX,
            SECOND == 1_000_000_000,
    ;
    idle >= timeout_mins as u128 * 60 * SECOND
}

/// There is one nearest choice to any minute count, and a choice is its own.
pub proof fn law_clamp_is_a_projection(mins: int, a: int, b: int)
    requires
        nearest_step(mins, a),
        nearest_step(mins, b),
    ensures
        a == b,
        nearest_step(a, a),
{
    assert(is_step(a) && is_step(b));
}

/// Stepping up and then down, or down and then up, comes back, but at the
/// ends; the result of a step is always a choice.
pub proof fn law_cycle_steps_back(step: int)
    requires
        is_step(step),
    ensures
        is_step(next_step(step, true)),
        is_step(next_step(step, false)),
        step != 120 ==> next_step(next_step(step, true), false) == step,
        step != 0 ==> next_step(next_step(step, false), true) == step,
        step == 120 ==> next_step(step, true) == 120,
        step == 0 ==> next_step(step, false) == 0,
{
    lemma_steps();
    let i = step_index(step);
    assert(LOCK_TIMEOUT_STEPS@[i] == step);
    assert forall|k: int| 0 <= k < 7 implies step_index(#[trigger] LOCK_TIMEOUT_STEPS@[k] as int) == k by {
        let j = step_index(LOCK_TIMEOUT_STEPS@[k] as int);
        assert(LOCK_TIMEOUT_STEPS@[j] == LOCK_TIMEOUT_STEPS@[k]);
    }
    let up = if i + 1 < 7 { i + 1 } else { 6 };
    let down = if i > 0 { i - 1 } else { 0 };
    assert(step_index(LOCK_TIMEOUT_STEPS@[up] as int) == up);
    assert(step_index(LOCK_TIMEOUT_STEPS@[down] as int) == down);
}

/// The idle timeout a settings file holds: the number in it, snapped onto a
/// choice, or the default when there is no file or no number in it.
pub fn lock_timeout_from(saved: Option<&str>) -> (r: u32)
    ensures
        match saved {
            Some(s) => match number::parse_unsigned(text::trim(s@), u32::MAX as nat) {
                Some(n) => nearest_step(n as int, r as int),
                None => r == LOCK_TIMEOUT_DEFAULT,
            },
            None => r == LOCK_TIMEOUT_DEFAULT,
        },
{
    match saved {
        Some(s) => {
            let cs = text::chars_of(s);
            match number::parse_unsigned_chars(text::trim_chars(cs.as_slice()), 4_294_967_295) {
                Some(n) => clamp_lock_timeout(n as u32),
                None => LOCK_TIMEOUT_DEFAULT,
            }
        },
        None => LOCK_TIMEOUT_DEFAULT,
    }
}

/// Human label for an idle-timeout value.
pub fn lock_timeout_label(mins: u32, texts: &Catalog) -> (r: String)
    ensures
        r@ == (if mins == 0 {
            texts.says("settings.lock_never"@)
        } else {
            texts.says_with("settings.lock_minutes"@, "n"@, number::decimal(mins as nat))
        }),
{
    if mins == 0 {
        texts.t("settings.lock_never")
    } else {
        let n = number::decimal_text(mins as u64);
        texts.tf("settings.lock_minutes", "n", n.as_str())
    }
}

// ---- the language -----------------------------------------------------------------

/// The language to start in: the one saved, if any; else Chinese when one of
/// the locale variables starts with "zh" in lower case; else English. The
/// variables come in the order they are asked in, absent ones left out.
pub open spec fn starting_locale(saved: Option<Seq<char>>, vars: Seq<Seq<char>>) -> Seq<char> {
    if saved is Some && text::trim(saved->0).len() > 0 {
        text::trim(saved->0)
    } else if exists|i: int|
        0 <= i < vars.len() && text::starts_with(
            crate::lettercase::lower_text(#[trigger] vars[i]),
            "zh"@,
        ) {
        "zh-CN"@
    } else {
        "en"@
    }
}

pub fn locale_from(saved: Option<&str>, vars: &Vec<String>) -> (r: String)
    ensures
        r@ == starting_locale(
            match saved {
                Some(s) => Some(s@),
                None => None,
            },
            crate::split::texts(vars@),
        ),
{
    if let Some(s) = saved {
        let lang = text::trim_text(s);
        if !lang.as_str().is_empty() {
            return lang;
        }
    }
    let ghost all = crate::split::texts(vars@);
    let mut i: usize = 0;
    while i < vars.len()
        invariant
            i <= vars.len(),
            all == crate::split::texts(vars@),
            saved matches Some(s) ==> text::trim(s@).len() == 0,
            forall|j: int|
                0 <= j < i ==> !text::starts_with(
                    crate::lettercase::lower_text(#[trigger] all[j]),
                    "zh"@,
                ),
        decreases vars.len() - i,
    {
        let lower = crate::lettercase::lowercase(vars[i].as_str());
        assert(all[i as int] == vars@[i as int]@);
        if text::text_starts_with(lower.as_str(), "zh") {
            assert(text::starts_with(crate::lettercase::lower_text(all[i as int]), "zh"@));
            return "zh-CN".to_owned();
        }
        i += 1;
    }
    "en".to_owned()
}

/// The other language.
pub fn toggled_locale(locale: &str) -> (r: String)
    ensures
        r@ == (if locale@ == "zh-CN"@ { "en"@ } else { "zh-CN"@ }),
{
    if text::same_text(locale, "zh-CN") {
        "en".to_owned()
    } else {
        "zh-CN".to_owned()
    }
}

// ---- saves waiting to be written ----------------------------------------------------

/// A settings file and what is to be in it.
#[derive(Debug, PartialEq, Eq)]
pub struct Save {
    pub path: String,
    pub contents: Vec<u8>,
}

/// The files a list of saves is for.
pub open spec fn paths(saves: Seq<Save>) -> Seq<Seq<char>> {
    saves.map_values(|s: Save| s.path@)
}

/// `k` is the last save for its file.
pub open spec fn last_for_its_file(saves: Seq<Save>, k: int) -> bool {
    0 <= k < saves.len() && forall|j: int| k < j < saves.len() ==> #[trigger] saves[j].path@ != saves[k].path@
}

/// The files of `saves`, each once, in the order they first come.
pub open spec fn files_in_order(saves: Seq<Save>) -> Seq<Seq<char>>
    decreases saves.len(),
{
    if saves.len() == 0 {
        Seq::empty()
    } else {
        let before = files_in_order(saves.drop_last());
        if before.contains(saves.last().path@) {
            before
        } else {
            before.push(saves.last().path@)
        }
    }
}

/// A file is among them exactly when a save is for it.
proof fn lemma_files_in_order(saves: Seq<Save>, f: Seq<char>)
    ensures
        files_in_order(saves).contains(f) <==> exists|k: int| 0 <= k < saves.len() && #[trigger] saves[k].path@ == f,
    decreases saves.len(),
{
    if saves.len() > 0 {
        let rest = saves.drop_last();
        let before = files_in_order(rest);
        lemma_files_in_order(rest, f);
        let p = saves.last().path@;
        if files_in_order(saves).contains(f) {
            if before.contains(f) {
                let k = choose|k: int| 0 <= k < rest.len() && #[trigger] rest[k].path@ == f;
                assert(saves[k].path@ == f);
            } else {
                let i = choose|i: int| 0 <= i < files_in_order(saves).len() && files_in_order(saves)[i] == f;
                if i < before.len() {
                    assert(before[i] == f);
                }
                assert(saves[saves.len() - 1].path@ == f);
            }
        }
        if exists|k: int| 0 <= k < saves.len() && #[trigger] saves[k].path@ == f {
            let k = choose|k: int| 0 <= k < saves.len() && #[trigger] saves[k].path@ == f;
            if k < rest.len() {
                assert(rest[k].path@ == f);
                let i = choose|i: int| 0 <= i < before.len() && before[i] == f;
                if !before.contains(p) {
                    assert(before.push(p)[i] == f);
                }
            } else if !before.contains(p) {
                assert(before.push(p)[before.len() as int] == f);
            }
        }
    }
}

/// The last contents queued for each file, in the order the files were first
/// queued.
pub fn coalesce_saves(saves: Vec<Save>) -> (out: Vec<Save>)
    ensures
        paths(out@) == files_in_order(saves@),
        forall|i: int, k: int|
            0 <= i < out@.len() && last_for_its_file(saves@, k) && #[trigger] out@[i].path@ == #[trigger] saves@[k].path@
                ==> out@[i].contents == saves@[k].contents,
{
    let ghost all = saves@;
    let mut out: Vec<Save> = Vec::new();
    assert(paths(out@) =~= files_in_order(all.take(0)));
    for save in it: saves
        invariant
            it.seq() == all,
            paths(out@) == files_in_order(all.take(it.index() as int)),
            forall|i: int, k: int|
                0 <= i < out@.len() && last_for_its_file(all.take(it.index() as int), k) && #[trigger] out@[i].path@
                    == #[trigger] all[k].path@ ==> out@[i].contents == all[k].contents,
            forall|i: int, j: int| 0 <= i < j < out@.len() ==> #[trigger] out@[i].path@ != #[trigger] out@[j].path@,
    {
        let ghost n = it.index() as int;
        let ghost before = out@;
        let ghost seen = all.take(n);
        let ghost next = all.take(n + 1);
        let mut at: usize = 0;
        while at < out.len() && !text::same_text(out[at].path.as_str(), save.path.as_str())
            invariant
                at <= out.len(),
                out@ == before,
                forall|j: int| 0 <= j < at ==> #[trigger] out@[j].path@ != save.path@,
            decreases out.len() - at,
        {
            at += 1;
        }
        proof {
            assert(next.drop_last() =~= seen);
            assert(next.last() == save);
            assert(files_in_order(seen) == paths(before));
        }
        if at < out.len() {
            let path = out[at].path.clone();
            out.set(at, Save { path, contents: save.contents });
            proof {
                assert(paths(before)[at as int] == save.path@);
                assert(paths(out@) =~= paths(before));
            }
        } else {
            out.push(save);
            proof {
                assert(!paths(before).contains(save.path@)) by {
                    if paths(before).contains(save.path@) {
                        let j = choose|j: int| 0 <= j < paths(before).len() && paths(before)[j] == save.path@;
                        assert(before[j].path@ == save.path@);
                    }
                }
                assert(paths(out@) =~= paths(before).push(save.path@));
                assert forall|i: int, j: int| 0 <= i < j < out@.len() implies #[trigger] out@[i].path@ != #[trigger] out@[j].path@ by {
                    assert(out@[i] == before[i]);
                    if j < before.len() {
                        assert(out@[j] == before[j]);
                    } else {
                        assert(before[i].path@ != save.path@);
                    }
                }
            }
        }
        proof {
            assert forall|i: int, k: int|
                0 <= i < out@.len() && last_for_its_file(next, k) && #[trigger] out@[i].path@ == #[trigger] all[k].path@ implies out@[i].contents
                == all[k].contents by {
                assert(next[n] == all[n] && all[n] == save);
                if k == n {
                    assert(out@[i].path@ == save.path@);
                    if at < before.len() {
                        if i != at {
                            assert(out@[i] == before[i]);
                            assert(out@[at as int].path@ == save.path@);
                        }
                    } else if i < before.len() {
                        assert(out@[i] == before[i]);
                        assert(before[i].path@ != save.path@);
                    }
                } else {
                    assert(next[n].path@ != next[k].path@);
                    assert(next[k] == all[k]);
                    assert(out@[i].path@ != save.path@);
                    assert(out@[i] == before[i]);
                    assert forall|j: int| k < j < seen.len() implies #[trigger] seen[j].path@ != seen[k].path@ by {
                        assert(next[j].path@ != next[k].path@);
                    }
                    assert(last_for_its_file(seen, k));
                }
            }
        }
    }
    assert(all.take(all.len() as int) =~= all);
    out
}

/// Coalescing keeps every file that was to be saved and makes up none.
pub proof fn law_coalescing_loses_no_file(saves: Seq<Save>, f: Seq<char>)
    ensures
        files_in_order(saves).contains(f) <==> exists|k: int| 0 <= k < saves.len() && #[trigger] saves[k].path@ == f,
{
    lemma_files_in_order(saves, f);
}

} // verus!

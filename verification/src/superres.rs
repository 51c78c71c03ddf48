//! Super-resolution: which pages go to Real-ESRGAN, how they are shared
//! among GPU workers, the command line of each run, and how outputs are
//! checked.
use vstd::prelude::*;
use crate::cli::string_views;
use crate::config::BookScanConfig;
use crate::scheduler::{assign_lpt, list_views, lpt_schedule, PageLoad};
use crate::text::{chars_of, decimal, decimal_chars, push_all, push_str, string_of};

verus! {

/// Whether pages are filtered before super-resolution: colour
/// normalisation, black-ink neutralisation or the pre-stroke blend is on.
pub open spec fn preprocessing_needed(c: BookScanConfig) -> bool {
    c.color_normalization_enabled || c.ink_neutralization_enabled || c.pre_stroke_enabled
}

/// Whether pages are filtered before super-resolution.
pub fn needs_preprocessing(config: &BookScanConfig) -> (r: bool)
    ensures
        r == preprocessing_needed(*config),
{
    config.color_normalization_enabled || config.ink_neutralization_enabled
        || config.pre_stroke_enabled
}

/// The positions of the pages that are not blank, in order.
pub open spec fn non_blank_positions(blank: Seq<bool>, n: int) -> Seq<usize>
    decreases n,
{
    if n <= 0 {
        Seq::empty()
    } else if blank[n - 1] {
        non_blank_positions(blank, n - 1)
    } else {
        non_blank_positions(blank, n - 1).push((n - 1) as usize)
    }
}

/// The positions of the pages that are not blank.
pub fn active_indices(blank: &Vec<bool>) -> (r: Vec<usize>)
    ensures
        r@ == non_blank_positions(blank@, blank@.len() as int),
{
    let mut r: Vec<usize> = Vec::new();
    let mut i: usize = 0;
    while i < blank.len()
        invariant
            i <= blank.len(),
            r@ == non_blank_positions(blank@, i as int),
        decreases blank.len() - i,
    {
        if !blank[i] {
            r.push(i);
        }
        i = i + 1;
    }
    r
}

/// A schedule over positions in `active`, written as page positions.
pub open spec fn map_schedule(schedule: Seq<Seq<usize>>, active: Seq<usize>) -> Seq<Seq<usize>> {
    Seq::new(
        schedule.len(),
        |w: int| Seq::new(schedule[w].len(), |k: int| active[schedule[w][k] as int]),
    )
}

/// The pages each GPU worker upscales: the LPT schedule of the active
/// pages, by page position.
pub fn gpu_assignments(loads: &Vec<PageLoad>, active: &Vec<usize>, gpu_workers: usize) -> (r: Vec<
    Vec<usize>,
>)
    requires
        loads@.len() == active@.len(),
    ensures
        list_views(r@) == map_schedule(lpt_schedule(loads@, gpu_workers as nat), active@),
{
    let schedule = assign_lpt(loads.as_slice(), gpu_workers);
    let ghost s = list_views(schedule@);
    assert(s == lpt_schedule(loads@, gpu_workers as nat));
    assert forall|a: int, b: int| 0 <= a < s.len() && 0 <= b < s[a].len() implies s[a][b]
        < loads@.len() by {
        assert(s[a] == schedule@[a]@);
        assert(schedule@[a]@[b] < loads@.len());
    }
    let mut r: Vec<Vec<usize>> = Vec::new();
    let mut w: usize = 0;
    while w < schedule.len()
        invariant
            w <= schedule.len(),
            s == list_views(schedule@),
            loads@.len() == active@.len(),
            forall|a: int, b: int|
                0 <= a < s.len() && 0 <= b < s[a].len() ==> s[a][b] < loads@.len(),
            list_views(r@) == map_schedule(s, active@).take(w as int),
        decreases schedule.len() - w,
    {
        let mut mapped: Vec<usize> = Vec::new();
        let mut k: usize = 0;
        while k < schedule[w].len()
            invariant
                k <= schedule@[w as int]@.len(),
                w < schedule.len(),
                s == list_views(schedule@),
                loads@.len() == active@.len(),
                forall|a: int, b: int|
                    0 <= a < s.len() && 0 <= b < s[a].len() ==> s[a][b] < loads@.len(),
                mapped@ == Seq::new(k as nat, |j: int| active@[s[w as int][j] as int]),
            decreases schedule@[w as int]@.len() - k,
        {
            assert(schedule[w as int]@[k as int] == s[w as int][k as int]);
            mapped.push(active[schedule[w][k]]);
            k = k + 1;
            assert(mapped@ =~= Seq::new(k as nat, |j: int| active@[s[w as int][j] as int]));
        }
        assert(s[w as int] == schedule@[w as int]@);
        assert(mapped@ =~= map_schedule(s, active@)[w as int]);
        let ghost before = list_views(r@);
        r.push(mapped);
        assert(list_views(r@) =~= before.push(mapped@));
        w = w + 1;
        assert(list_views(r@) =~= map_schedule(s, active@).take(w as int));
    }
    assert(map_schedule(s, active@).take(w as int) =~= map_schedule(s, active@));
    r
}

// ---------------------------------------------------------------------
// Real-ESRGAN command line

/// The arguments of one Real-ESRGAN run.
pub open spec fn realesrgan_args(
    input: Seq<char>,
    output: Seq<char>,
    model_dir: Seq<char>,
    c: BookScanConfig,
) -> Seq<Seq<char>> {
    seq![
        "-i"@,
        input,
        "-o"@,
        output,
        "-s"@,
        decimal(c.ai_scale() as nat),
        "-n"@,
        c.superres_model@,
        "-m"@,
        model_dir,
        "-j"@,
        "1:1:1"@,
        "-t"@,
        decimal(c.tile_size as nat),
        "-f"@,
        "png"@,
    ] + (if c.gpu_id >= 0 {
        seq!["-g"@, decimal(c.gpu_id as nat)]
    } else {
        Seq::empty()
    }) + (if c.tta_enabled {
        seq!["-x"@]
    } else {
        Seq::empty()
    })
}

fn text(s: &str) -> (r: String)
    ensures
        r@ == s@,
{
    s.to_string()
}

fn number_text(n: u128) -> (r: String)
    ensures
        r@ == decimal(n as nat),
{
    string_of(&decimal_chars(n))
}

/// The arguments of one Real-ESRGAN run over `input` into `output`, with
/// paths already in the form the program reads.
pub fn realesrgan_arguments(input: &str, output: &str, model_dir: &str, config: &BookScanConfig) -> (r:
    Vec<String>)
    ensures
        string_views(r@) == realesrgan_args(input@, output@, model_dir@, *config),
{
    let mut r: Vec<String> = Vec::new();
    r.push(text("-i"));
    r.push(text(input));
    r.push(text("-o"));
    r.push(text(output));
    r.push(text("-s"));
    r.push(number_text(config.resolved_ai_scale() as u128));
    r.push(text("-n"));
    r.push(config.superres_model.clone());
    r.push(text("-m"));
    r.push(text(model_dir));
    r.push(text("-j"));
    r.push(text("1:1:1"));
    r.push(text("-t"));
    r.push(number_text(config.tile_size as u128));
    r.push(text("-f"));
    r.push(text("png"));
    if config.gpu_id >= 0 {
        r.push(text("-g"));
        r.push(number_text(config.gpu_id as u128));
    }
    if config.tta_enabled {
        r.push(text("-x"));
    }
    assert(string_views(r@) =~= realesrgan_args(input@, output@, model_dir@, *config));
    r
}

// ---------------------------------------------------------------------
// Checking outputs

/// The verdict on an output image that should be `width` x `height`: it
/// must exist, decode, and have that size.
pub open spec fn dimension_verdict(
    path: Seq<char>,
    exists: bool,
    read: Result<(u32, u32), Seq<char>>,
    width: u32,
    height: u32,
) -> Result<(), Seq<char>> {
    if !exists {
        Err("出力がありません: "@ + path)
    } else {
        match read {
            Err(e) => Err("出力画像をデコードできません: "@ + path + ": "@ + e),
            Ok((w, h)) => if w == width && h == height {
                Ok(())
            } else {
                Err(
                    "出力寸法が不一致です: "@ + path + " expected="@ + decimal(width as nat) + "x"@
                        + decimal(height as nat) + " actual="@ + decimal(w as nat) + "x"@ + decimal(
                        h as nat,
                    ),
                )
            },
        }
    }
}

/// Checks an output image against the size it should have, given whether
/// the file exists and what reading its size gave.
pub fn check_dimensions(
    path: &str,
    exists: bool,
    read: &Result<(u32, u32), String>,
    width: u32,
    height: u32,
) -> (r: Result<(), String>)
    ensures
        match r {
            Ok(()) => dimension_verdict(path@, exists, match read {
                Ok(d) => Ok(*d),
                Err(e) => Err(e@),
            }, width, height) == Ok::<(), Seq<char>>(()),
            Err(m) => dimension_verdict(path@, exists, match read {
                Ok(d) => Ok(*d),
                Err(e) => Err(e@),
            }, width, height) == Err::<(), Seq<char>>(m@),
        },
{
    if !exists {
        let mut m = chars_of("出力がありません: ");
        push_str(&mut m, path);
        return Err(string_of(&m));
    }
    match read {
        Err(e) => {
            let mut m = chars_of("出力画像をデコードできません: ");
            push_str(&mut m, path);
            push_str(&mut m, ": ");
            push_str(&mut m, e.as_str());
            Err(string_of(&m))
        },
        Ok((w, h)) => {
            if *w == width && *h == height {
                Ok(())
            } else {
                let mut m = chars_of("出力寸法が不一致です: ");
                push_str(&mut m, path);
                push_str(&mut m, " expected=");
                push_all(&mut m, &decimal_chars(width as u128));
                push_str(&mut m, "x");
                push_all(&mut m, &decimal_chars(height as u128));
                push_str(&mut m, " actual=");
                push_all(&mut m, &decimal_chars(*w as u128));
                push_str(&mut m, "x");
                push_all(&mut m, &decimal_chars(*h as u128));
                Err(string_of(&m))
            }
        },
    }
}

/// The size an image of `width` x `height` has after scaling by `scale`.
pub fn scaled_size(width: u32, height: u32, scale: u32) -> (r: (u32, u32))
    requires
        width * scale <= u32::MAX,
        height * scale <= u32::MAX,
    ensures
        r.0 == width * scale,
        r.1 == height * scale,
{
    (width * scale, height * scale)
}

/// Whether the AI output can be kept as it is, or must be brought down to
/// the output scale with Lanczos.
pub fn ai_output_is_final(config: &BookScanConfig) -> (r: bool)
    ensures
        r == (config.ai_scale() == config.superres_output_scale),
{
    config.resolved_ai_scale() == config.superres_output_scale
}


/// `value * scale`, or the complaint that the image gets too large.
pub fn checked_scaled(value: u32, scale: u32) -> (r: Result<u32, String>)
    ensures
        match r {
            Ok(v) => value * scale <= u32::MAX && v == value * scale,
            Err(m) => value * scale > u32::MAX && m@ == "画像寸法が大きすぎます"@,
        },
{
    match value.checked_mul(scale) {
        Some(v) => Ok(v),
        None => Err(String::from_str("画像寸法が大きすぎます")),
    }
}

// ---------------------------------------------------------------------
// Checking the AI outputs and retrying once

/// The (worker, page) pairs among `pages` of `worker` whose output did not
/// pass its check, in order.
pub open spec fn failed_in(worker: usize, pages: Seq<usize>, valid: Seq<bool>) -> Seq<(usize, usize)>
    decreases pages.len(),
{
    if pages.len() == 0 {
        Seq::empty()
    } else {
        failed_in(worker, pages.drop_last(), valid) + if valid[pages.last() as int] {
            Seq::empty()
        } else {
            seq![(worker, pages.last())]
        }
    }
}

/// The (worker, page) pairs of the first `n` workers' assignments whose
/// output did not pass its check, in assignment order.
pub open spec fn retry_list(assignments: Seq<Seq<usize>>, valid: Seq<bool>, n: int) -> Seq<(usize, usize)>
    decreases n,
{
    if n <= 0 {
        Seq::empty()
    } else {
        retry_list(assignments, valid, n - 1) + failed_in((n - 1) as usize, assignments[n - 1], valid)
    }
}

/// Every page of the assignments has a check.
pub open spec fn checked_pages(assignments: Seq<Seq<usize>>, valid: Seq<bool>) -> bool {
    forall|w: int, k: int|
        0 <= w < assignments.len() && 0 <= k < assignments[w].len() ==> #[trigger] assignments[w][k]
            < valid.len()
}

/// The pages Real-ESRGAN runs again, once each: those whose output is
/// missing, broken or of the wrong size after the first run (`valid` is
/// indexed by page), with their worker, in assignment order.
pub fn retry_pages(assignments: &Vec<Vec<usize>>, valid: &Vec<bool>) -> (r: Vec<(usize, usize)>)
    requires
        checked_pages(list_views(assignments@), valid@),
    ensures
        r@ == retry_list(list_views(assignments@), valid@, assignments@.len() as int),
{
    let ghost a = list_views(assignments@);
    let mut r: Vec<(usize, usize)> = Vec::new();
    let mut w: usize = 0;
    while w < assignments.len()
        invariant
            w <= assignments.len(),
            a == list_views(assignments@),
            checked_pages(a, valid@),
            r@ == retry_list(a, valid@, w as int),
        decreases assignments.len() - w,
    {
        let pages = &assignments[w];
        assert(a[w as int] == pages@);
        let ghost before = r@;
        let mut k: usize = 0;
        while k < pages.len()
            invariant
                k <= pages.len(),
                w < assignments.len(),
                a == list_views(assignments@),
                a[w as int] == pages@,
                checked_pages(a, valid@),
                r@ == before + failed_in(w, pages@.take(k as int), valid@),
            decreases pages.len() - k,
        {
            let page = pages[k];
            assert(a[w as int][k as int] == page);
            assert(pages@.take(k + 1).drop_last() =~= pages@.take(k as int));
            if !valid[page] {
                r.push((w, page));
            }
            k = k + 1;
            assert(r@ =~= before + failed_in(w, pages@.take(k as int), valid@));
        }
        assert(pages@.take(k as int) =~= pages@);
        w = w + 1;
        assert(r@ =~= retry_list(a, valid@, w as int));
    }
    r
}

/// How often page `p` occurs in `pages`.
pub open spec fn occurrences(pages: Seq<usize>, p: int) -> nat
    decreases pages.len(),
{
    if pages.len() == 0 {
        0
    } else {
        occurrences(pages.drop_last(), p) + if pages.last() == p {
            1nat
        } else {
            0nat
        }
    }
}

/// `a + k`, held at `u32::MAX`.
pub open spec fn saturating_add(a: u32, k: nat) -> u32 {
    if a + k > u32::MAX {
        u32::MAX
    } else {
        (a + k) as u32
    }
}

/// The attempt counts after the retries: each retried page's count goes up
/// by one per retry (held at `u32::MAX`), every other count stays.
pub fn after_retry(attempts: &Vec<u32>, retried: &Vec<usize>) -> (r: Vec<u32>)
    requires
        forall|i: int| 0 <= i < retried@.len() ==> #[trigger] retried@[i] < attempts@.len(),
    ensures
        r@.len() == attempts@.len(),
        forall|p: int| 0 <= p < r@.len() ==> #[trigger] r@[p] == saturating_add(attempts@[p], occurrences(retried@, p)),
{
    let mut r = attempts.clone();
    let mut i: usize = 0;
    while i < retried.len()
        invariant
            i <= retried.len(),
            forall|j: int| 0 <= j < retried@.len() ==> #[trigger] retried@[j] < attempts@.len(),
            r@.len() == attempts@.len(),
            forall|p: int| 0 <= p < r@.len() ==> #[trigger] r@[p] == saturating_add(
                attempts@[p],
                occurrences(retried@.take(i as int), p),
            ),
        decreases retried.len() - i,
    {
        let page = retried[i];
        assert(retried@[i as int] < attempts@.len());
        let v = r[page].saturating_add(1);
        r.set(page, v);
        proof {
            assert(retried@.take(i + 1).drop_last() =~= retried@.take(i as int));
            assert forall|p: int| 0 <= p < r@.len() implies #[trigger] r@[p] == saturating_add(
                attempts@[p],
                occurrences(retried@.take(i + 1), p),
            ) by {
                assert(occurrences(retried@.take(i + 1), p) == occurrences(retried@.take(i as int), p) + if p
                    == page {
                    1nat
                } else {
                    0nat
                });
            }
        }
        i = i + 1;
    }
    assert(retried@.take(i as int) =~= retried@);
    r
}

/// The first of `n` second checks that failed, in assignment order.
pub open spec fn first_failure(checks: Seq<Result<(), String>>, n: int) -> Option<Seq<char>>
    decreases n,
{
    if n <= 0 {
        None
    } else {
        match first_failure(checks, n - 1) {
            Some(m) => Some(m),
            None => match checks[n - 1] {
                Err(m) => Some(m@),
                Ok(()) => None,
            },
        }
    }
}

/// The outcome of super-resolution after the retry: the first page whose
/// second check failed, in assignment order, stops it with that check's
/// complaint; otherwise it succeeded.
pub fn superres_outcome(second_check: &Vec<Result<(), String>>) -> (r: Result<(), String>)
    ensures
        match first_failure(second_check@, second_check@.len() as int) {
            Some(m) => r matches Err(x) && x@ == m,
            None => r is Ok,
        },
{
    let mut i: usize = 0;
    while i < second_check.len()
        invariant
            i <= second_check.len(),
            first_failure(second_check@, i as int) is None,
        decreases second_check.len() - i,
    {
        match &second_check[i] {
            Err(m) => {
                proof {
                    lemma_first_failure_stays(second_check@, i + 1, second_check@.len() as int);
                }
                return Err(m.clone());
            },
            Ok(()) => {},
        }
        i = i + 1;
    }
    Ok(())
}

proof fn lemma_first_failure_stays(checks: Seq<Result<(), String>>, k: int, n: int)
    requires
        0 < k <= n,
        first_failure(checks, k) is Some,
    ensures
        first_failure(checks, n) == first_failure(checks, k),
    decreases n - k,
{
    if n > k {
        lemma_first_failure_stays(checks, k, n - 1);
    }
}

proof fn lemma_failed_in_members(worker: usize, pages: Seq<usize>, valid: Seq<bool>)
    ensures
        forall|w: usize, p: usize|
            #[trigger] failed_in(worker, pages, valid).contains((w, p)) <==> (w == worker
                && pages.contains(p) && !valid[p as int]),
    decreases pages.len(),
{
    broadcast use vstd::seq_lib::group_seq_properties;

    if pages.len() > 0 {
        let rest = pages.drop_last();
        lemma_failed_in_members(worker, rest, valid);
        assert(rest.push(pages.last()) =~= pages);
        let tail = if valid[pages.last() as int] {
            Seq::<(usize, usize)>::empty()
        } else {
            seq![(worker, pages.last())]
        };
        assert(failed_in(worker, pages, valid) == failed_in(worker, rest, valid) + tail);
        assert forall|w: usize, p: usize|
            #[trigger] failed_in(worker, pages, valid).contains((w, p)) <==> (w == worker
                && pages.contains(p) && !valid[p as int]) by {
            assert(tail.contains((w, p)) <==> (!valid[pages.last() as int] && (w, p) == (
                worker,
                pages.last(),
            ))) by {
                if tail.contains((w, p)) {
                    let j = choose|j: int| 0 <= j < tail.len() && tail[j] == (w, p);
                    assert(j == 0);
                }
                if !valid[pages.last() as int] && (w, p) == (worker, pages.last()) {
                    assert(tail[0] == (w, p));
                }
            }
        }
    }
}

/// The retry list holds exactly the pages whose first output failed its
/// check, each with the worker it was assigned to: `(w, p)` is in it when
/// worker `w` had page `p` and `p` did not pass, and only then.
pub proof fn lemma_retry_list_is_failed_pages(assignments: Seq<Seq<usize>>, valid: Seq<bool>, n: int)
    requires
        0 <= n <= assignments.len(),
        n <= usize::MAX + 1,
    ensures
        forall|w: usize, p: usize|
            #[trigger] retry_list(assignments, valid, n).contains((w, p)) <==> (w < n
                && assignments[w as int].contains(p) && !valid[p as int]),
    decreases n,
{
    broadcast use vstd::seq_lib::group_seq_properties;

    if n > 0 {
        lemma_retry_list_is_failed_pages(assignments, valid, n - 1);
        lemma_failed_in_members((n - 1) as usize, assignments[n - 1], valid);
        assert forall|w: usize, p: usize|
            #[trigger] retry_list(assignments, valid, n).contains((w, p)) <==> (w < n
                && assignments[w as int].contains(p) && !valid[p as int]) by {
            assert(retry_list(assignments, valid, n) == retry_list(assignments, valid, n - 1)
                + failed_in((n - 1) as usize, assignments[n - 1], valid));
        }
    }
}

/// The active pages are exactly the pages that are not blank, by
/// increasing position.
pub proof fn lemma_active_pages_are_non_blank(blank: Seq<bool>, n: int)
    requires
        0 <= n <= blank.len(),
        n <= usize::MAX + 1,
    ensures
        forall|i: usize| #[trigger] non_blank_positions(blank, n).contains(i) <==> (i < n && !blank[i as int]),
        forall|a: int, b: int|
            0 <= a < b < non_blank_positions(blank, n).len() ==> #[trigger] non_blank_positions(
                blank,
                n,
            )[a] < #[trigger] non_blank_positions(blank, n)[b],
    decreases n,
{
    broadcast use vstd::seq_lib::group_seq_properties;

    if n > 0 {
        lemma_active_pages_are_non_blank(blank, n - 1);
        let s = non_blank_positions(blank, n - 1);
        if !blank[n - 1] {
            let t = s.push((n - 1) as usize);
            assert forall|a: int, b: int| 0 <= a < b < t.len() implies #[trigger] t[a] < #[trigger] t[b] by {
                assert(s.contains(t[a]));
                if b < s.len() {
                    assert(t[b] == s[b]);
                }
            }
        }
    }
}

/// The outcome reports a failure exactly when some second check failed,
/// and then it is the complaint of the first one that failed.
pub proof fn lemma_first_failure_is_earliest(checks: Seq<Result<(), String>>, n: int)
    requires
        0 <= n <= checks.len(),
    ensures
        first_failure(checks, n) is None <==> forall|i: int| 0 <= i < n ==> (#[trigger] checks[i]) is Ok,
        first_failure(checks, n) is Some ==> exists|i: int|
            0 <= i < n && (#[trigger] checks[i]) is Err && (forall|j: int|
                0 <= j < i ==> (#[trigger] checks[j]) is Ok) && first_failure(checks, n) == Some(
                checks[i]->Err_0@,
            ),
    decreases n,
{
    if n > 0 {
        lemma_first_failure_is_earliest(checks, n - 1);
        if first_failure(checks, n - 1) is None {
            if checks[n - 1] is Err {
                assert(forall|j: int| 0 <= j < n - 1 ==> (#[trigger] checks[j]) is Ok);
            }
        }
    }
}

} // verus!

//! Properties that hold across the library's operations: what the history keeps and
//! lists, that saving a configuration twice changes nothing more and keeps the chosen
//! translation service, that device ids survive normalization, where each provider's
//! call is planned, how shortcut modifiers fold, how CTC decoding reads runs of classes,
//! and how recognized lines and detected boxes are ordered and padded.
use vstd::prelude::*;

use crate::cloud_auth::{device_id_for, device_id_prefix, generated_device_id, uuid_shaped, valid_device_id};
use crate::config::{
    dedup, migrated_provider, normalized_from, normalized_model_dir, normalized_view,
    production_endpoint, trimmed_secret, AppConfigView, EnglishAccent, ModelDirView,
};
use crate::desktop::{distinct_ids, routed_action};
use crate::history::{
    consistent_rows, lemma_sorted_insert_keeps_order, newer,
    newest_first, recent_count, retain, sorted_insert, HistoryRecord, HistoryStore,
    MAX_HISTORY_RECORDS,
};
use crate::hotkey::{
    dispatches, hotkeys_conflict, modifier_of, modifiers_problem, HotkeyAction, HotkeyModifier,
};
use crate::text::{eq_ignore_case, lower};
use crate::recognition::{ctc_steps, ctc_text, emits};
use crate::ocr::{
    in_reading_order, insert_line, padded, reading_order, reads_before, BBox,
    TextLine,
};
use crate::text::{is_ascii_alnum, is_blank, is_ws, lemma_trim_idempotent, lemma_trim_no_ws, trim};
use crate::translate::{
    first_long, plan_for, request_problem, total_chars, TranslationPlan, MAX_TRANSLATE_TEXTS,
    MAX_TRANSLATE_TEXT_CHARS, MAX_TRANSLATE_TOTAL_CHARS,
};
use crate::config::{TranslatorConfig, TranslatorProvider};
use crate::error::Error;
use crate::urls::joined_url;

verus! {

broadcast use vstd::seq_lib::group_seq_properties;

/// Inserting a record keeps every record and adds the new one.
proof fn lemma_sorted_insert_multiset(s: Seq<HistoryRecord>, r: HistoryRecord)
    ensures
        sorted_insert(s, r).to_multiset() == s.to_multiset().insert(r),
    decreases s.len(),
{
    broadcast use vstd::seq_lib::to_multiset_insert;

    if s.len() == 0 {
        assert(sorted_insert(s, r) =~= s.insert(0, r));
    } else if newer(r, s[0]) {
        assert(sorted_insert(s, r) =~= s.insert(0, r));
    } else {
        let t = s.drop_first();
        lemma_sorted_insert_multiset(t, r);
        assert(sorted_insert(s, r) =~= sorted_insert(t, r).insert(0, s[0]));
        assert(s =~= t.insert(0, s[0]));
    }
}

/// The history keeps the newest records: inserting a record with a fresh id into a
/// newest-first store of at most `MAX_HISTORY_RECORDS` records gives a newest-first list
/// holding the old records and the new one, cut to `MAX_HISTORY_RECORDS`, where every
/// record kept is newer than every record dropped.
pub proof fn law_history_keeps_newest(s: Seq<HistoryRecord>, r: HistoryRecord)
    requires
        newest_first(s),
        s.len() <= MAX_HISTORY_RECORDS,
        forall|i: int| 0 <= i < s.len() ==> (#[trigger] s[i]).id < r.id,
    ensures
        sorted_insert(s, r).to_multiset() == s.to_multiset().insert(r),
        newest_first(retain(sorted_insert(s, r))),
        retain(sorted_insert(s, r)).len() == if s.len() < MAX_HISTORY_RECORDS {
            s.len() + 1
        } else {
            MAX_HISTORY_RECORDS as nat
        },
        retain(sorted_insert(s, r)) == sorted_insert(s, r).take(
            retain(sorted_insert(s, r)).len() as int,
        ),
        forall|i: int, j: int|
            0 <= i < retain(sorted_insert(s, r)).len() <= j < sorted_insert(s, r).len() ==> newer(
                #[trigger] sorted_insert(s, r)[i],
                #[trigger] sorted_insert(s, r)[j],
            ),
        forall|kept: HistoryRecord, dropped: HistoryRecord|
            #![trigger retain(sorted_insert(s, r)).contains(kept), sorted_insert(s, r).contains(dropped)]
            retain(sorted_insert(s, r)).contains(kept) && sorted_insert(s, r).contains(dropped)
                && !retain(sorted_insert(s, r)).contains(dropped) ==> newer(kept, dropped),
{
    lemma_sorted_insert_multiset(s, r);
    lemma_sorted_insert_keeps_order(s, r);
    let all = sorted_insert(s, r);
    let kept = retain(all);
    assert forall|x: HistoryRecord, y: HistoryRecord|
        #![trigger kept.contains(x), all.contains(y)]
        kept.contains(x) && all.contains(y) && !kept.contains(y) implies newer(x, y) by {
        let i = choose|i: int| 0 <= i < kept.len() && kept[i] == x;
        let j = choose|j: int| 0 <= j < all.len() && all[j] == y;
        if all.len() > MAX_HISTORY_RECORDS {
            assert(kept[i] == all[i]);
            if j < kept.len() {
                assert(kept[j] == all[j]);
            }
        } else {
            assert(all.take(all.len() as int) =~= all);
        }
    }
    if all.len() > MAX_HISTORY_RECORDS {
        assert forall|i: int, j: int| 0 <= i < j < kept.len() implies newer(
            #[trigger] kept[i],
            #[trigger] kept[j],
        ) by {
            assert(kept[i] == all[i] && kept[j] == all[j]);
        }
    } else {
        assert(all.take(all.len() as int) =~= all);
    }
}

/// Every character a valid device id may hold is not whitespace.
proof fn lemma_valid_id_no_ws(s: Seq<char>)
    requires
        valid_device_id(s),
    ensures
        forall|i: int| 0 <= i < s.len() ==> !is_ws(#[trigger] s[i]),
{
    assert forall|i: int| 0 <= i < s.len() implies !is_ws(#[trigger] s[i]) by {
        assert(is_ascii_alnum(s[i]) || s[i] == '-' || s[i] == '_');
    }
}

/// A generated device id is one the cloud accepts.
pub proof fn law_generated_ids_are_valid(s: Seq<char>)
    requires
        generated_device_id(s),
    ensures
        valid_device_id(s),
{
    reveal_strlit("snaptext-desktop-");
    let p = device_id_prefix().len() as int;
    assert forall|i: int| 0 <= i < s.len() implies is_ascii_alnum(#[trigger] s[i]) || s[i] == '-'
        || s[i] == '_' by {
        if i < p {
            assert(s.take(p)[i] == s[i]);
        } else {
            assert(s.skip(p)[i - p] == s[i]);
            assert(uuid_shaped(s.skip(p)));
        }
    }
}

/// A device id that normalization kept or generated is kept by a second normalization.
pub proof fn law_device_id_normalization_is_stable(raw: Seq<char>, out: Seq<char>)
    requires
        device_id_for(raw, out),
    ensures
        valid_device_id(out),
        trim(out) == out,
        device_id_for(out, out),
{
    if valid_device_id(trim(raw)) {
        assert(out == trim(raw));
    } else {
        law_generated_ids_are_valid(out);
    }
    lemma_valid_id_no_ws(out);
    lemma_trim_no_ws(out);
}

/// Removing repeats leaves no repeats and the same members.
proof fn lemma_dedup_members(s: Seq<EnglishAccent>)
    ensures
        dedup(s).no_duplicates(),
        forall|x: EnglishAccent| dedup(s).contains(x) <==> s.contains(x),
    decreases s.len(),
{
    if s.len() > 0 {
        let t = s.drop_last();
        lemma_dedup_members(t);
        let d = dedup(t);
        assert forall|x: EnglishAccent| dedup(s).contains(x) <==> s.contains(x) by {
            if s.contains(x) && x != s.last() {
                let i = choose|i: int| 0 <= i < s.len() && s[i] == x;
                assert(t[i] == x);
            }
            if t.contains(x) {
                let i = choose|i: int| 0 <= i < t.len() && t[i] == x;
                assert(s[i] == x);
            }
            if !d.contains(s.last()) && d.push(s.last()).contains(x) && x != s.last() {
                let i = choose|i: int| 0 <= i < d.len() + 1 && d.push(s.last())[i] == x;
                assert(d[i] == x);
            }
            if d.contains(s.last()) || true {
                if x == s.last() {
                    assert(s[s.len() - 1] == x);
                    if !d.contains(x) {
                        assert(d.push(x)[d.len() as int] == x);
                    }
                }
            }
        }
        if !d.contains(s.last()) {
            assert forall|i: int, j: int| 0 <= i < j < d.len() + 1 implies d.push(s.last())[i]
                != d.push(s.last())[j] by {
                if j == d.len() {
                    assert(d.contains(d[i]));
                }
            }
        }
    }
}

/// A list without repeats is its own deduplication.
proof fn lemma_dedup_of_distinct(s: Seq<EnglishAccent>)
    requires
        s.no_duplicates(),
    ensures
        dedup(s) == s,
    decreases s.len(),
{
    if s.len() > 0 {
        let t = s.drop_last();
        assert(t.no_duplicates());
        lemma_dedup_of_distinct(t);
        lemma_dedup_members(t);
        assert(!t.contains(s.last())) by {
            if t.contains(s.last()) {
                let i = choose|i: int| 0 <= i < t.len() && t[i] == s.last();
                assert(s[i] == s[s.len() - 1]);
            }
        }
        assert(t.push(s.last()) =~= s);
    }
}

/// Trimming a secret twice trims it once.
proof fn lemma_trimmed_secret_stable(o: Option<Seq<char>>)
    ensures
        trimmed_secret(trimmed_secret(o)) == trimmed_secret(o),
{
    if let Some(s) = o {
        lemma_trim_idempotent(s);
    }
}

/// Normalizing a model directory setting twice normalizes it once.
proof fn lemma_model_dir_stable(m: ModelDirView)
    ensures
        normalized_model_dir(normalized_model_dir(m)) == normalized_model_dir(m),
{
    reveal_strlit("bundled");
    assert(forall|i: int| 0 <= i < "bundled"@.len() ==> !is_ws(#[trigger] "bundled"@[i]));
    lemma_trim_no_ws("bundled"@);
    match m {
        ModelDirView::Bundled(v) => {
            lemma_trim_idempotent(v);
        },
        ModelDirView::Custom(p) => {
            lemma_trim_idempotent(p);
        },
    }
}

/// Saving a configuration twice changes nothing the first save did not: a normalized
/// configuration normalizes to itself, keeping its device id.
pub proof fn law_normalization_is_idempotent(c: AppConfigView, out: AppConfigView)
    requires
        normalized_from(c, out),
    ensures
        normalized_from(out, out),
        out.cloud_endpoint == production_endpoint(),
        valid_device_id(out.cloud_device_id),
{
    law_device_id_normalization_is_stable(c.cloud_device_id, out.cloud_device_id);
    lemma_trim_idempotent(c.target_lang);
    lemma_trim_idempotent(c.screenshot_hotkey);
    lemma_trim_idempotent(c.selection_hotkey);
    lemma_trim_idempotent(c.openai_model);
    lemma_trimmed_secret_stable(c.openai_api_key);
    lemma_trimmed_secret_stable(c.deepl_api_key);
    lemma_trimmed_secret_stable(c.google_api_key);
    lemma_model_dir_stable(c.model_dir);
    lemma_dedup_members(c.english_accents);
    lemma_dedup_of_distinct(dedup(c.english_accents));
    assert(migrated_provider(migrated_provider(c.provider)) == migrated_provider(c.provider));
    assert(normalized_view(out, out.cloud_device_id) == out);
}


/// Every line of `insert_line(sorted, line)` is `line` or a line of `sorted`, and no line
/// is lost.
proof fn lemma_insert_line_multiset(sorted: Seq<TextLine>, line: TextLine)
    ensures
        insert_line(sorted, line).to_multiset() == sorted.to_multiset().insert(line),
        insert_line(sorted, line).len() == sorted.len() + 1,
    decreases sorted.len(),
{
    broadcast use vstd::seq_lib::to_multiset_build;

    if sorted.len() > 0 && !reads_before(sorted.last().bbox, line.bbox) {
        let t = sorted.drop_last();
        lemma_insert_line_multiset(t, line);
        assert(sorted =~= t.push(sorted.last()));
        assert(insert_line(t, line).push(sorted.last()).to_multiset() == insert_line(t, line).to_multiset().insert(sorted.last()));
        assert(sorted.to_multiset() == t.to_multiset().insert(sorted.last()));
        assert(insert_line(sorted, line).to_multiset() =~= sorted.to_multiset().insert(line));
    } else if sorted.len() == 0 {
        assert(seq![line] =~= Seq::<TextLine>::empty().push(line));
    }
}

/// Inserting a line into lines in reading order keeps them in reading order.
proof fn lemma_insert_line_sorted(sorted: Seq<TextLine>, line: TextLine)
    requires
        in_reading_order(sorted),
    ensures
        in_reading_order(insert_line(sorted, line)),
    decreases sorted.len(),
{
    if sorted.len() == 0 {
    } else if reads_before(sorted.last().bbox, line.bbox) {
        let u = sorted.push(line);
        assert forall|i: int, j: int| 0 <= i < j < u.len() implies reads_before(
            #[trigger] u[i].bbox,
            #[trigger] u[j].bbox,
        ) by {
            if j == sorted.len() && i < sorted.len() - 1 {
                assert(reads_before(sorted[i].bbox, sorted[sorted.len() - 1].bbox));
            }
        }
    } else {
        let t = sorted.drop_last();
        let last = sorted.last();
        assert forall|i: int, j: int| 0 <= i < j < t.len() implies reads_before(
            #[trigger] t[i].bbox,
            #[trigger] t[j].bbox,
        ) by {
            assert(t[i] == sorted[i] && t[j] == sorted[j]);
        }
        lemma_insert_line_sorted(t, line);
        lemma_insert_line_multiset(t, line);
        let inner = insert_line(t, line);
        let u = inner.push(last);
        assert forall|i: int, j: int| 0 <= i < j < u.len() implies reads_before(
            #[trigger] u[i].bbox,
            #[trigger] u[j].bbox,
        ) by {
            if j == inner.len() {
                let x = inner[i];
                assert(inner.to_multiset().count(x) > 0);
                assert(t.to_multiset().insert(line).count(x) > 0);
                if x != line {
                    assert(t.to_multiset().count(x) > 0);
                    assert(t.contains(x));
                    let k = choose|k: int| 0 <= k < t.len() && t[k] == x;
                    assert(reads_before(sorted[k].bbox, sorted[sorted.len() - 1].bbox));
                }
            }
        }
    }
}

/// Reading order sorts: the lines come out top to bottom, then left to right, and none
/// is lost or added.
pub proof fn law_reading_order_sorts(lines: Seq<TextLine>)
    ensures
        in_reading_order(reading_order(lines)),
        reading_order(lines).to_multiset() == lines.to_multiset(),
    decreases lines.len(),
{
    broadcast use vstd::seq_lib::to_multiset_build;

    if lines.len() > 0 {
        law_reading_order_sorts(lines.drop_last());
        lemma_insert_line_sorted(reading_order(lines.drop_last()), lines.last());
        lemma_insert_line_multiset(reading_order(lines.drop_last()), lines.last());
        assert(lines =~= lines.drop_last().push(lines.last()));
    }
}

/// The recognition padding never cuts into a detected box: the padded box starts at or
/// before it and, when the box's far edges fit in `u32`, ends at or after it.
pub proof fn law_padding_contains_box(b: BBox)
    ensures
        padded(b).x <= b.x,
        padded(b).y <= b.y,
        b.x + b.width <= u32::MAX ==> padded(b).x + padded(b).width >= b.x + b.width,
        b.y + b.height <= u32::MAX ==> padded(b).y + padded(b).height >= b.y + b.height,
{
}


/// A record id names one record: two stored records with the same id are the same record,
/// so looking an id up gives back what was stored under it.
pub proof fn law_history_ids_identify_records(store: HistoryStore, a: HistoryRecord, b: HistoryRecord)
    requires
        store.inv(),
        store.records().contains(a),
        store.records().contains(b),
        a.id == b.id,
    ensures
        a == b,
{
    let i = choose|i: int| 0 <= i < store.records().len() && store.records()[i] == a;
    let j = choose|j: int| 0 <= j < store.records().len() && store.records()[j] == b;
    if i < j {
        assert(store.records()[i].id != store.records()[j].id);
    } else if j < i {
        assert(store.records()[j].id != store.records()[i].id);
    }
}

/// The recent records are the newest ones, newest first, and at most
/// `MAX_HISTORY_RECORDS` of them.
pub proof fn law_recent_is_newest_first(store: HistoryStore, limit: nat)
    requires
        store.inv(),
    ensures
        newest_first(store.records().take(recent_count(store.records().len(), limit) as int)),
        recent_count(store.records().len(), limit) <= MAX_HISTORY_RECORDS,
        recent_count(store.records().len(), limit) <= limit,
{
    let k = recent_count(store.records().len(), limit) as int;
    let t = store.records().take(k);
    assert forall|i: int, j: int| 0 <= i < j < t.len() implies newer(#[trigger] t[i], #[trigger] t[j]) by {
        assert(t[i] == store.records()[i] && t[j] == store.records()[j]);
    }
}

/// What the history holds can be stored and read back: the records of any store, with
/// its next id, are rows that restoring accepts, and restoring keeps all of them.
pub proof fn law_stored_history_restores(store: HistoryStore)
    requires
        store.inv(),
    ensures
        consistent_rows(store.records(), store.next_id()),
        retain(store.records()) == store.records(),
{
}

/// Each press and release of a shortcut starts its action exactly once: on the press, or
/// for selection with the release workaround, on the release.
pub proof fn law_one_dispatch_per_shortcut_cycle(action: HotkeyAction, release_windows_selection: bool)
    ensures
        dispatches(action, true, release_windows_selection) != dispatches(
            action,
            false,
            release_windows_selection,
        ),
        action == HotkeyAction::Screenshot ==> dispatches(action, true, release_windows_selection),
{
}

/// Two shortcuts conflict regardless of which one is the screenshot shortcut.
pub proof fn law_hotkey_conflicts_are_symmetric(a: Seq<char>, b: Seq<char>)
    ensures
        hotkeys_conflict(a, b) == hotkeys_conflict(b, a),
{
}

/// Routes built from registered shortcuts lead each event id to the action registered
/// with it.
pub proof fn law_routes_find_registered_actions(ids: Seq<(HotkeyAction, u32)>, i: int)
    requires
        distinct_ids(ids.map_values(|p: (HotkeyAction, u32)| (p.1, p.0))),
        0 <= i < ids.len(),
    ensures
        routed_action(ids.map_values(|p: (HotkeyAction, u32)| (p.1, p.0)), ids[i].1) == Some(
            ids[i].0,
        ),
{
    let routes = ids.map_values(|p: (HotkeyAction, u32)| (p.1, p.0));
    assert(routes[i].0 == ids[i].1);
    let j = choose|j: int| 0 <= j < routes.len() && routes[j].0 == ids[i].1;
    if j < i {
        assert((routes[j]).0 != (routes[i]).0);
    } else if i < j {
        assert((routes[i]).0 != (routes[j]).0);
    }
}

/// No text from `k` on is over the per-text limit when none is found there.
proof fn lemma_no_long_text(t: Seq<Seq<char>>, k: int)
    requires
        0 <= k <= t.len(),
        first_long(t, k) >= t.len(),
    ensures
        forall|i: int| k <= i < t.len() ==> (#[trigger] t[i]).len() <= MAX_TRANSLATE_TEXT_CHARS,
    decreases t.len() - k,
{
    if k < t.len() {
        lemma_no_long_text(t, k + 1);
    }
}

/// A request that passes validation is within every limit: one to `MAX_TRANSLATE_TEXTS`
/// texts, none blank or over `MAX_TRANSLATE_TEXT_CHARS` characters, at most
/// `MAX_TRANSLATE_TOTAL_CHARS` characters in all, and a target language.
pub proof fn law_accepted_requests_are_within_limits(t: Seq<Seq<char>>, target: Seq<char>)
    requires
        request_problem(t, target) is None,
    ensures
        1 <= t.len() <= MAX_TRANSLATE_TEXTS,
        forall|i: int|
            0 <= i < t.len() ==> !is_blank(#[trigger] t[i]) && t[i].len() <= MAX_TRANSLATE_TEXT_CHARS,
        total_chars(t) <= MAX_TRANSLATE_TOTAL_CHARS,
        !is_blank(target),
{
    lemma_no_long_text(t, 0);
}

/// Saving a configuration keeps the translation service the user chose; only the
/// services that were removed (OpenAI-compatible and local HTTP) fall back to SnapText
/// Cloud.
pub proof fn law_normalization_keeps_offered_providers(c: AppConfigView, out: AppConfigView)
    requires
        normalized_from(c, out),
    ensures
        c.provider != TranslatorProvider::OpenAiCompatible && c.provider
            != TranslatorProvider::LocalHttp ==> out.provider == c.provider,
        c.provider == TranslatorProvider::OpenAiCompatible || c.provider
            == TranslatorProvider::LocalHttp ==> out.provider == TranslatorProvider::SnapTextCloud,
{
}

/// Asking for the `limit` most recent records gives as many as asked for, unless the
/// retention limit of 500 or the number stored is smaller: the count is at most each of
/// the three and equal to one of them.
pub proof fn law_recent_takes_as_many_as_asked(len: nat, limit: nat)
    ensures
        MAX_HISTORY_RECORDS == 500,
        recent_count(len, limit) <= limit,
        recent_count(len, limit) <= MAX_HISTORY_RECORDS,
        recent_count(len, limit) <= len,
        recent_count(len, limit) == limit || recent_count(len, limit) == MAX_HISTORY_RECORDS
            || recent_count(len, limit) == len,
{
}

/// A planned translation call goes to the provider that is configured, at that
/// provider's own endpoint: SnapText Cloud at `v1/translate` below its endpoint, without a
/// key but with the device id; OpenAI-compatible services at `chat/completions` and DeepL
/// at `translate` below their base URLs, and Google at its base URL, each with its key;
/// a local HTTP service at its endpoint as configured. An enabled SnapText Cloud whose
/// endpoint joins is always planned.
pub proof fn law_plans_post_to_provider_endpoints(
    config: TranslatorConfig,
    plan: Result<TranslationPlan, Error>,
)
    requires
        plan_for(config, plan),
    ensures
        plan matches Ok(p) ==> p.provider == config.provider,
        plan matches Ok(p) ==> (config.provider == TranslatorProvider::SnapTextCloud ==> (
        joined_url(config.snaptext_cloud.endpoint@, "v1/translate"@) == Some(p.endpoint@)
            && p.api_key is None && (p.device_id matches Some(d) && d@
            == config.snaptext_cloud.device_id@))),
        plan matches Ok(p) ==> (config.provider == TranslatorProvider::OpenAiCompatible ==> (
        joined_url(config.openai_compatible.base_url@, "chat/completions"@) == Some(p.endpoint@)
            && p.api_key is Some && p.device_id is None)),
        plan matches Ok(p) ==> (config.provider == TranslatorProvider::DeepL ==> (joined_url(
            config.deepl.base_url@,
            "translate"@,
        ) == Some(p.endpoint@) && p.api_key is Some && p.device_id is None)),
        plan matches Ok(p) ==> (config.provider == TranslatorProvider::Google ==> (p.endpoint@
            == config.google.base_url@ && p.api_key is Some && p.device_id is None)),
        plan matches Ok(p) ==> (config.provider == TranslatorProvider::LocalHttp ==> (p.endpoint@
            == config.local_http.endpoint@ && p.api_key is None && p.device_id is None)),
        config.provider == TranslatorProvider::SnapTextCloud && config.snaptext_cloud.enabled
            && joined_url(config.snaptext_cloud.endpoint@, "v1/translate"@) is Some ==> plan is Ok,
        config.provider == TranslatorProvider::SnapTextCloud && !config.snaptext_cloud.enabled
            ==> plan is Err,
{
}

/// Each spelling of a shortcut modifier, in any ASCII case, folds to its own modifier:
/// `CmdOrCtrl`, `CommandOrControl`, `Super` and `Meta` to the platform command key, `Cmd`
/// and `Command` to Command, `Ctrl` and `Control` to Control, `Shift` to Shift, and `Alt`
/// and `Option` to Alt.
pub proof fn law_modifier_spellings_fold_apart(v: Seq<char>)
    ensures
        eq_ignore_case(v, "cmdorctrl"@) || eq_ignore_case(v, "commandorcontrol"@) || eq_ignore_case(
            v,
            "super"@,
        ) || eq_ignore_case(v, "meta"@) ==> modifier_of(v) == Some(HotkeyModifier::CmdOrCtrl),
        eq_ignore_case(v, "cmd"@) || eq_ignore_case(v, "command"@) ==> modifier_of(v) == Some(
            HotkeyModifier::Cmd,
        ),
        eq_ignore_case(v, "ctrl"@) || eq_ignore_case(v, "control"@) ==> modifier_of(v) == Some(
            HotkeyModifier::Ctrl,
        ),
        eq_ignore_case(v, "shift"@) ==> modifier_of(v) == Some(HotkeyModifier::Shift),
        eq_ignore_case(v, "alt"@) || eq_ignore_case(v, "option"@) ==> modifier_of(v) == Some(
            HotkeyModifier::Alt,
        ),
{
    reveal_strlit("cmdorctrl");
    reveal_strlit("commandorcontrol");
    reveal_strlit("super");
    reveal_strlit("meta");
    reveal_strlit("cmd");
    reveal_strlit("command");
    reveal_strlit("ctrl");
    reveal_strlit("control");
    reveal_strlit("shift");
    reveal_strlit("alt");
    reveal_strlit("option");
    assert(lower("cmdorctrl"@).len() == 9);
    assert(lower("commandorcontrol"@).len() == 16);
    assert(lower("super"@).len() == 5);
    assert(lower("meta"@).len() == 4);
    assert(lower("cmd"@).len() == 3);
    assert(lower("command"@).len() == 7);
    assert(lower("ctrl"@).len() == 4);
    assert(lower("control"@).len() == 7);
    assert(lower("shift"@).len() == 5);
    assert(lower("alt"@).len() == 3);
    assert(lower("option"@).len() == 6);
    assert(lower("shift"@)[1] != lower("super"@)[1]);
    assert(lower("ctrl"@)[0] != lower("meta"@)[0]);
    assert(lower("control"@)[2] != lower("command"@)[2]);
    assert(lower("alt"@)[0] != lower("cmd"@)[0]);
}

/// The modifiers `mods[i..]` pass after the folded modifiers `seen` exactly when each
/// is a modifier, none folds like an earlier one, and none is among `seen`.
proof fn lemma_modifiers_accepted(
    name: Seq<char>,
    mods: Seq<Seq<char>>,
    i: int,
    seen: Seq<HotkeyModifier>,
)
    requires
        0 <= i <= mods.len(),
    ensures
        modifiers_problem(name, mods, i, seen) is None <==> {
            &&& forall|j: int| i <= j < mods.len() ==> (#[trigger] modifier_of(mods[j])) is Some
            &&& forall|j: int, k: int|
                i <= j < k < mods.len() ==> #[trigger] modifier_of(mods[j]) != #[trigger] modifier_of(
                    mods[k],
                )
            &&& forall|j: int|
                i <= j < mods.len() ==> !seen.contains((#[trigger] modifier_of(mods[j]))->0)
        },
    decreases mods.len() - i,
{
    if i < mods.len() {
        match modifier_of(mods[i]) {
            None => {},
            Some(m) => {
                if !seen.contains(m) {
                    lemma_modifiers_accepted(name, mods, i + 1, seen.push(m));
                    if modifiers_problem(name, mods, i, seen) is None {
                        assert forall|j: int, k: int|
                            i <= j < k < mods.len() implies #[trigger] modifier_of(mods[j])
                            != #[trigger] modifier_of(mods[k]) by {
                            if j == i {
                                assert(!seen.push(m).contains(modifier_of(mods[k])->0));
                                assert(seen.push(m)[seen.len() as int] == m);
                            }
                        }
                        assert forall|j: int|
                            i <= j < mods.len() implies !seen.contains(
                                (#[trigger] modifier_of(mods[j]))->0,
                            ) by {
                            if j > i {
                                if seen.contains(modifier_of(mods[j])->0) {
                                    let x = choose|x: int|
                                        0 <= x < seen.len() && seen[x] == modifier_of(mods[j])->0;
                                    assert(seen.push(m)[x] == seen[x]);
                                }
                            }
                        }
                    } else {
                        if (forall|j: int| i <= j < mods.len() ==> (#[trigger] modifier_of(mods[j])) is Some)
                            && (forall|j: int, k: int|
                            i <= j < k < mods.len() ==> #[trigger] modifier_of(mods[j])
                                != #[trigger] modifier_of(mods[k])) && (forall|j: int|
                            i <= j < mods.len() ==> !seen.contains(
                                (#[trigger] modifier_of(mods[j]))->0,
                            )) {
                            assert forall|j: int|
                                i + 1 <= j < mods.len() implies !seen.push(m).contains(
                                    (#[trigger] modifier_of(mods[j]))->0,
                                ) by {
                                assert(modifier_of(mods[i]) != modifier_of(mods[j]));
                                if seen.push(m).contains(modifier_of(mods[j])->0) {
                                    let x = choose|x: int|
                                        0 <= x < seen.push(m).len() && seen.push(m)[x]
                                            == modifier_of(mods[j])->0;
                                    if x < seen.len() {
                                        assert(seen.contains(modifier_of(mods[j])->0));
                                    }
                                }
                            }
                        }
                    }
                } else {
                    assert(modifier_of(mods[i]) is Some);
                }
            },
        }
    }
}

/// The modifiers of a shortcut are accepted exactly when every one of them is a modifier
/// and no two of them fold to the same modifier.
pub proof fn law_modifiers_accepted_when_distinct(name: Seq<char>, mods: Seq<Seq<char>>)
    ensures
        modifiers_problem(name, mods, 0, Seq::empty()) is None <==> {
            &&& forall|j: int| 0 <= j < mods.len() ==> (#[trigger] modifier_of(mods[j])) is Some
            &&& forall|j: int, k: int|
                0 <= j < k < mods.len() ==> #[trigger] modifier_of(mods[j]) != #[trigger] modifier_of(
                    mods[k],
                )
        },
{
    lemma_modifiers_accepted(name, mods, 0, Seq::empty());
}

/// CTC decoding emits once per run of a class: a time step emits exactly when its class
/// is not the blank class 0, names a dictionary entry (class `k` names entry `k - 1`), and
/// differs from the class of the step right before it; so a step repeating the class
/// before it never emits. The emitting steps come in time order. (The classes are those
/// of a vector, so their count fits in `usize`.)
#[verifier::rlimit(40)]
pub proof fn law_ctc_emits_once_per_run(classes: Seq<usize>, dict_len: nat)
    requires
        classes.len() <= usize::MAX,
    ensures
        forall|i: int|
            0 <= i < ctc_steps(classes, dict_len).len() ==> #[trigger] ctc_steps(classes, dict_len)[i]
                < classes.len(),
        forall|i: int, j: int|
            0 <= i < j < ctc_steps(classes, dict_len).len() ==> #[trigger] ctc_steps(
                classes,
                dict_len,
            )[i] < #[trigger] ctc_steps(classes, dict_len)[j],
        forall|t: int|
            0 <= t < classes.len() ==> (ctc_steps(classes, dict_len).contains(t as usize) <==> (
            #[trigger] classes[t] != 0 && classes[t] - 1 < dict_len && (t == 0 || classes[t]
                != classes[t - 1]))),
        forall|t: int|
            0 < t < classes.len() && #[trigger] classes[t] == classes[t - 1] ==> !ctc_steps(
                classes,
                dict_len,
            ).contains(t as usize),
    decreases classes.len(),
{
    if classes.len() > 0 {
        let c = classes.drop_last();
        let n = classes.len() - 1;
        law_ctc_emits_once_per_run(c, dict_len);
        let s0 = ctc_steps(c, dict_len);
        let s = ctc_steps(classes, dict_len);
        assert(!s0.contains(n as usize)) by {
            if s0.contains(n as usize) {
                let x = choose|x: int| 0 <= x < s0.len() && s0[x] == n as usize;
                assert(s0[x] < c.len());
            }
        }
        assert forall|t: int|
            0 <= t < classes.len() implies (s.contains(t as usize) <==> (#[trigger] classes[t] != 0
            && classes[t] - 1 < dict_len && (t == 0 || classes[t] != classes[t - 1]))) by {
            if t < n {
                assert(c[t] == classes[t]);
                if t > 0 {
                    assert(c[t - 1] == classes[t - 1]);
                }
                if emits(classes, n, dict_len) {
                    assert(s == s0.push(n as usize));
                    if s.contains(t as usize) {
                        let x = choose|x: int| 0 <= x < s.len() && s[x] == t as usize;
                        assert(x < s0.len());
                        assert(s0[x] == t as usize);
                    }
                    if s0.contains(t as usize) {
                        let x = choose|x: int| 0 <= x < s0.len() && s0[x] == t as usize;
                        assert(s[x] == t as usize);
                    }
                }
            } else {
                if emits(classes, n, dict_len) {
                    assert(s[s.len() - 1] == n as usize);
                }
            }
        }
        assert forall|t: int|
            0 < t < classes.len() && #[trigger] classes[t] == classes[t - 1] implies !s.contains(
                t as usize,
            ) by {
            assert(0 <= t < classes.len());
        }
    }
}

/// The dictionary entries of the time steps `steps`, in order (class `k` names entry
/// `k - 1`).
pub open spec fn step_tokens(steps: Seq<usize>, classes: Seq<usize>, dictionary: Seq<Seq<char>>) -> Seq<
    char,
>
    decreases steps.len(),
{
    if steps.len() == 0 {
        Seq::<char>::empty()
    } else {
        step_tokens(steps.drop_last(), classes, dictionary) + dictionary[classes[
            steps.last() as int] - 1]
    }
}

/// The tokens of steps before `c.len()` read the same from `c` as from any longer
/// sequence that starts with it.
proof fn lemma_step_tokens_prefix(
    steps: Seq<usize>,
    c: Seq<usize>,
    classes: Seq<usize>,
    dictionary: Seq<Seq<char>>,
)
    requires
        c.len() <= classes.len(),
        forall|k: int| 0 <= k < c.len() ==> c[k] == classes[k],
        forall|i: int| 0 <= i < steps.len() ==> steps[i] < c.len(),
    ensures
        step_tokens(steps, c, dictionary) == step_tokens(steps, classes, dictionary),
    decreases steps.len(),
{
    if steps.len() > 0 {
        lemma_step_tokens_prefix(steps.drop_last(), c, classes, dictionary);
        assert(steps.last() < c.len());
    }
}

/// The decoded text is the dictionary entries of the emitting time steps, in order.
pub proof fn law_ctc_text_reads_emitting_steps(classes: Seq<usize>, dictionary: Seq<Seq<char>>)
    requires
        classes.len() <= usize::MAX,
    ensures
        ctc_text(classes, dictionary) == step_tokens(
            ctc_steps(classes, dictionary.len()),
            classes,
            dictionary,
        ),
    decreases classes.len(),
{
    if classes.len() > 0 {
        let c = classes.drop_last();
        let n = classes.len() - 1;
        law_ctc_text_reads_emitting_steps(c, dictionary);
        law_ctc_emits_once_per_run(c, dictionary.len());
        let s0 = ctc_steps(c, dictionary.len());
        lemma_step_tokens_prefix(s0, c, classes, dictionary);
        if emits(classes, n, dictionary.len()) {
            let s = s0.push(n as usize);
            assert(s.drop_last() == s0);
        } else {
            assert(ctc_text(classes, dictionary) == ctc_text(c, dictionary) + Seq::<char>::empty());
        }
    }
}

} // verus!

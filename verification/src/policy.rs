//! The vocabulary of a safety policy document.
//!
//! A policy is written with a small set of words. Words that are not in it, and words
//! that were retired from it, are refused by name, so that a policy is never read as
//! something weaker than its author wrote.
use crate::config::{
    CanonHistoryRequire, OnDegraded, ProducerContinuityRequire, SafetyRequire,
    ScribeRecoveryRequire,
};
use crate::text::{
    chars_of, concat, concat_of, decimal, law_decimal_digits, parse_number, parsed_number,
    same_text, texts_view,
};
use crate::text_laws::{
    differ_behind, law_numbers_are_read_back, law_only_digits_are_numbers, lemma_differ_in_parts,
};
use vstd::prelude::*;

verus! {

/// A value of a policy document.
#[derive(Debug, Clone, Copy)]
pub enum PolicyWord<'a> {
    Text(&'a str),
    Number(u64),
    /// Anything else.
    Other,
}

/// How a refusal names a value.
pub open spec fn shown(word: PolicyWord<'_>) -> Seq<char> {
    match word {
        PolicyWord::Text(text) => text@,
        _ => "?"@,
    }
}

/// Whether a value is this text.
pub open spec fn is_word(word: PolicyWord<'_>, text: Seq<char>) -> bool {
    word is Text && word->Text_0@ == text
}

/// The refusal of a value that is not the only one.
pub open spec fn word_refusal(key: Seq<char>, only: Seq<char>, word: PolicyWord<'_>) -> Seq<char> {
    concat_of(seq!["safety.require."@, key, " must be '"@, only, "', got '"@, shown(word), "'"@])
}

/// Whether `require` is `before` with what an entry asks for.
pub open spec fn is_with_entry(
    before: SafetyRequire,
    require: SafetyRequire,
    key: Seq<char>,
    word: PolicyWord<'_>,
) -> bool {
    if key == "canon_history"@ {
        require == (SafetyRequire {
            canon_history: Some(CanonHistoryRequire::Committed),
            ..before
        }) && is_word(word, "committed"@)
    } else if key == "producer_continuity"@ {
        require == (SafetyRequire {
            producer_continuity: Some(ProducerContinuityRequire::Spooled),
            ..before
        }) && is_word(word, "spooled"@)
    } else if key == "scribe_recovery"@ {
        require == (SafetyRequire {
            scribe_recovery: Some(ScribeRecoveryRequire::Automatic),
            ..before
        }) && is_word(word, "automatic"@)
    } else {
        &&& key == "min_storage_failure_domains"@
        &&& word is Number && 1 <= word->Number_0 <= u32::MAX
        &&& require == (SafetyRequire {
            min_storage_failure_domains: Some(word->Number_0 as u32),
            ..before
        })
    }
}

/// Why an entry is refused, where it is.
pub open spec fn entry_refusal(key: Seq<char>, word: PolicyWord<'_>) -> Option<Seq<char>> {
    if key == "canon_history"@ {
        if is_word(word, "committed"@) {
            None
        } else {
            Some(word_refusal(key, "committed"@, word))
        }
    } else if key == "producer_continuity"@ {
        if is_word(word, "spooled"@) {
            None
        } else {
            Some(word_refusal(key, "spooled"@, word))
        }
    } else if key == "scribe_recovery"@ {
        if is_word(word, "automatic"@) {
            None
        } else {
            Some(word_refusal(key, "automatic"@, word))
        }
    } else if key == "min_storage_failure_domains"@ {
        if word is Number && 1 <= word->Number_0 <= u32::MAX {
            None
        } else {
            Some("safety.require.min_storage_failure_domains must be an integer >= 1"@)
        }
    } else {
        Some(concat_of(seq!["unknown safety.require key '"@, key, "'"@]))
    }
}

/// Whether a value is this text.
fn spells_word(word: PolicyWord<'_>, text: &str) -> (same: bool)
    ensures
        same == is_word(word, text@),
{
    match word {
        PolicyWord::Text(found) => same_text(found, text),
        _ => false,
    }
}

/// Refuses a value that is not the only one.
fn refuse_word(key: &str, only: &str, word: PolicyWord<'_>) -> (message: String)
    ensures
        message@ == word_refusal(key@, only@, word),
{
    let found = match word {
        PolicyWord::Text(text) => text,
        _ => "?",
    };
    let parts = ["safety.require.", key, " must be '", only, "', got '", found, "'"];
    let message = concat(&parts);
    assert(texts_view(parts@) =~= seq![
        "safety.require."@,
        key@,
        " must be '"@,
        only@,
        "', got '"@,
        shown(word),
        "'"@,
    ]);
    message
}

/// Reads one entry of `safety.require`.
pub fn require_entry(before: SafetyRequire, key: &str, word: PolicyWord<'_>) -> (require: Result<
    SafetyRequire,
    String,
>)
    ensures
        match require {
            Ok(require) => entry_refusal(key@, word) is None && is_with_entry(
                before,
                require,
                key@,
                word,
            ),
            Err(message) => entry_refusal(key@, word) == Some(message@),
        },
{
    if same_text(key, "canon_history") {
        if spells_word(word, "committed") {
            Ok(SafetyRequire { canon_history: Some(CanonHistoryRequire::Committed), ..before })
        } else {
            Err(refuse_word(key, "committed", word))
        }
    } else if same_text(key, "producer_continuity") {
        if spells_word(word, "spooled") {
            Ok(
                SafetyRequire {
                    producer_continuity: Some(ProducerContinuityRequire::Spooled),
                    ..before
                },
            )
        } else {
            Err(refuse_word(key, "spooled", word))
        }
    } else if same_text(key, "scribe_recovery") {
        if spells_word(word, "automatic") {
            Ok(SafetyRequire { scribe_recovery: Some(ScribeRecoveryRequire::Automatic), ..before })
        } else {
            Err(refuse_word(key, "automatic", word))
        }
    } else if same_text(key, "min_storage_failure_domains") {
        match word {
            PolicyWord::Number(least) if 1 <= least && least <= u32::MAX as u64 => Ok(
                SafetyRequire { min_storage_failure_domains: Some(least as u32), ..before },
            ),
            _ => Err(
                "safety.require.min_storage_failure_domains must be an integer >= 1".to_owned(),
            ),
        }
    } else {
        let parts = ["unknown safety.require key '", key, "'"];
        let message = concat(&parts);
        assert(texts_view(parts@) =~= seq!["unknown safety.require key '"@, key@, "'"@]);
        Err(message)
    }
}

/// Reads `safety.on_degraded`. Where it is left out, a degraded start is refused.
pub fn read_on_degraded(raw: Option<&str>) -> (choice: Result<OnDegraded, String>)
    ensures
        match choice {
            Ok(OnDegraded::FailStart) => raw is None || raw->0@ == "fail_start"@,
            Ok(OnDegraded::Warn) => raw is Some && raw->0@ == "warn"@,
            Err(message) => raw is Some && raw->0@ != "fail_start"@ && raw->0@ != "warn"@
                && message@ == concat_of(
                seq!["safety.on_degraded must be fail_start or warn, got '"@, raw->0@, "'"@],
            ),
        },
{
    match raw {
        None => Ok(OnDegraded::FailStart),
        Some(raw) => if same_text(raw, "fail_start") {
            Ok(OnDegraded::FailStart)
        } else if same_text(raw, "warn") {
            proof {
                reveal_strlit("warn");
                reveal_strlit("fail_start");
            }
            Ok(OnDegraded::Warn)
        } else {
            let parts = ["safety.on_degraded must be fail_start or warn, got '", raw, "'"];
            let message = concat(&parts);
            assert(texts_view(parts@) =~= seq![
                "safety.on_degraded must be fail_start or warn, got '"@,
                raw@,
                "'"@,
            ]);
            Err(message)
        },
    }
}

/// The seconds that a loss budget spells: a number, then `s`.
pub open spec fn budget_seconds(raw: Seq<char>) -> Option<nat> {
    if raw.len() > 0 && raw.last() == 's' {
        parsed_number(raw.drop_last(), u64::MAX as nat)
    } else {
        None
    }
}

/// Reads `producer_spool.loss_budget`.
pub fn loss_budget_secs(raw: &str) -> (seconds: Result<u64, String>)
    ensures
        match seconds {
            Ok(seconds) => budget_seconds(raw@) == Some(seconds as nat),
            Err(message) => budget_seconds(raw@) is None && message@ == concat_of(
                seq![
                    "producer_spool.loss_budget must be a number of seconds such as 30s, got '"@,
                    raw@,
                    "'"@,
                ],
            ),
        },
{
    let chars = chars_of(raw);
    let total: usize = chars.len();
    if total > 0 && chars[total - 1] == 's' {
        let digits = &chars.as_slice()[0..total - 1];
        assert(digits@ =~= raw@.drop_last());
        if let Some(seconds) = parse_number(digits, u64::MAX) {
            return Ok(seconds);
        }
    }
    let parts = [
        "producer_spool.loss_budget must be a number of seconds such as 30s, got '",
        raw,
        "'",
    ];
    let message = concat(&parts);
    assert(texts_view(parts@) =~= seq![
        "producer_spool.loss_budget must be a number of seconds such as 30s, got '"@,
        raw@,
        "'"@,
    ]);
    Err(message)
}

/// An entry is either read or refused, and reading one leaves the others as they were.
pub proof fn law_entries_are_independent(
    before: SafetyRequire,
    require: SafetyRequire,
    key: Seq<char>,
    word: PolicyWord<'_>,
)
    requires
        is_with_entry(before, require, key, word),
    ensures
        entry_refusal(key, word) is None,
        key != "canon_history"@ ==> require.canon_history == before.canon_history,
        key != "producer_continuity"@ ==> require.producer_continuity
            == before.producer_continuity,
        key != "scribe_recovery"@ ==> require.scribe_recovery == before.scribe_recovery,
        key != "min_storage_failure_domains"@ ==> require.min_storage_failure_domains
            == before.min_storage_failure_domains,
{
    reveal_strlit("canon_history");
    reveal_strlit("producer_continuity");
    reveal_strlit("scribe_recovery");
    reveal_strlit("min_storage_failure_domains");
}

/// An entry is read exactly where it is one of four: history committed, continuity spooled,
/// recovery automatic, or at least one failure domain.
pub proof fn law_four_entries_are_read(key: Seq<char>, word: PolicyWord<'_>)
    ensures
        entry_refusal(key, word) is None <==> {
            ||| key == "canon_history"@ && word is Text && word->Text_0@ == "committed"@
            ||| key == "producer_continuity"@ && word is Text && word->Text_0@ == "spooled"@
            ||| key == "scribe_recovery"@ && word is Text && word->Text_0@ == "automatic"@
            ||| key == "min_storage_failure_domains"@ && word is Number && word->Number_0 >= 1
                && word->Number_0 <= 0xffff_ffff
        },
{
    reveal_strlit("canon_history");
    reveal_strlit("producer_continuity");
    reveal_strlit("scribe_recovery");
    reveal_strlit("min_storage_failure_domains");
    assert("canon_history"@.len() == 13);
    assert("producer_continuity"@.len() == 19);
    assert("scribe_recovery"@.len() == 15);
    assert("min_storage_failure_domains"@.len() == 27);
}

/// An entry that is read requires what it says.
pub proof fn law_entries_require_what_they_say(
    before: SafetyRequire,
    require: SafetyRequire,
    key: Seq<char>,
    word: PolicyWord<'_>,
)
    requires
        is_with_entry(before, require, key, word),
    ensures
        key == "canon_history"@ ==> require.canon_history == Some(CanonHistoryRequire::Committed),
        key == "producer_continuity"@ ==> require.producer_continuity == Some(
            ProducerContinuityRequire::Spooled,
        ),
        key == "scribe_recovery"@ ==> require.scribe_recovery == Some(
            ScribeRecoveryRequire::Automatic,
        ),
        key == "min_storage_failure_domains"@ ==> word is Number
            && require.min_storage_failure_domains is Some
            && require.min_storage_failure_domains->0 == word->Number_0,
{
    reveal_strlit("canon_history");
    reveal_strlit("producer_continuity");
    reveal_strlit("scribe_recovery");
    reveal_strlit("min_storage_failure_domains");
    assert("canon_history"@.len() == 13);
    assert("producer_continuity"@.len() == 19);
    assert("scribe_recovery"@.len() == 15);
    assert("min_storage_failure_domains"@.len() == 27);
}

/// A budget is a number and then `s`; without the `s` it is none.
pub proof fn law_budgets_are_seconds(seconds: nat, raw: Seq<char>)
    ensures
        seconds <= u64::MAX ==> budget_seconds(decimal(seconds).push('s')) == Some(seconds),
        seconds > u64::MAX ==> budget_seconds(decimal(seconds).push('s')) is None,
        budget_seconds(decimal(seconds)) is None,
        budget_seconds(raw) is Some ==> raw.len() >= 2 && raw.last() == 's',
{
    law_numbers_are_read_back(seconds, u64::MAX as nat);
    assert(decimal(seconds).push('s').drop_last() =~= decimal(seconds));
    law_decimal_digits(seconds);
    if raw.len() > 0 {
        law_only_digits_are_numbers(raw.drop_last(), u64::MAX as nat);
    }
}

/// A refusal names the key, the word that it takes and the word that it got.
pub proof fn law_refused_words_are_named(
    key: Seq<char>,
    only: Seq<char>,
    word: &str,
    other: Seq<char>,
    other_word: &str,
)
    ensures
        differ_behind(
            word_refusal(key, only, PolicyWord::Text(word)),
            word_refusal(other, only, PolicyWord::Text(word)),
            "safety.require."@,
            key,
            other,
        ),
        differ_behind(
            word_refusal(key, only, PolicyWord::Text(word)),
            word_refusal(key, other, PolicyWord::Text(word)),
            " must be '"@,
            only,
            other,
        ),
        differ_behind(
            word_refusal(key, only, PolicyWord::Text(word)),
            word_refusal(key, only, PolicyWord::Text(other_word)),
            "', got '"@,
            word@,
            other_word@,
        ),
{
    let parts = seq![
        "safety.require."@,
        key,
        " must be '"@,
        only,
        "', got '"@,
        word@,
        "'"@,
    ];
    lemma_differ_in_parts(parts, 1, other);
    assert(parts.update(1, other) =~= seq![
        "safety.require."@,
        other,
        " must be '"@,
        only,
        "', got '"@,
        word@,
        "'"@,
    ]);
    lemma_differ_in_parts(parts, 3, other);
    assert(parts.update(3, other) =~= seq![
        "safety.require."@,
        key,
        " must be '"@,
        other,
        "', got '"@,
        word@,
        "'"@,
    ]);
    lemma_differ_in_parts(parts, 5, other_word@);
    assert(parts.update(5, other_word@) =~= seq![
        "safety.require."@,
        key,
        " must be '"@,
        only,
        "', got '"@,
        other_word@,
        "'"@,
    ]);
}

/// A degraded start is refused where the policy says nothing of it or says so, is warned of where
/// it says so, and any other word is refused.
pub proof fn law_degraded_starts_are_refused_by_default(
    unsaid: Result<OnDegraded, String>,
    raw: &str,
    said: Result<OnDegraded, String>,
    budget: Result<u64, String>,
    seconds: u64,
)
    requires
        call_ensures(read_on_degraded, (None,), unsaid),
        call_ensures(read_on_degraded, (Some(raw),), said),
        call_ensures(loss_budget_secs, (raw,), budget),
    ensures
        unsaid == Ok::<_, String>(OnDegraded::FailStart),
        said == Ok::<_, String>(OnDegraded::Warn) <==> raw@ == "warn"@,
        said == Ok::<_, String>(OnDegraded::FailStart) <==> raw@ == "fail_start"@,
        raw@ == decimal(seconds as nat).push('s') ==> budget == Ok::<_, String>(seconds),
{
    reveal_strlit("warn");
    reveal_strlit("fail_start");
    assert("warn"@.len() == 4 && "fail_start"@.len() == 10);
    law_budgets_are_seconds(seconds as nat, raw@);
}

/// Reading an entry sets what it asks for, and only that.
pub proof fn law_read_entries_are_required(
    before: SafetyRequire,
    key: &str,
    word: PolicyWord<'_>,
    require: Result<SafetyRequire, String>,
)
    requires
        call_ensures(require_entry, (before, key, word), require),
    ensures
        require matches Ok(after) ==> {
            &&& after.canon_history == (if key@ == "canon_history"@ {
                Some(CanonHistoryRequire::Committed)
            } else {
                before.canon_history
            })
            &&& after.producer_continuity == (if key@ == "producer_continuity"@ {
                Some(ProducerContinuityRequire::Spooled)
            } else {
                before.producer_continuity
            })
            &&& after.scribe_recovery == (if key@ == "scribe_recovery"@ {
                Some(ScribeRecoveryRequire::Automatic)
            } else {
                before.scribe_recovery
            })
        },
        require is Ok ==> entry_refusal(key@, word) is None,
        require is Err ==> entry_refusal(key@, word) is Some,
{
    if let Ok(after) = require {
        law_entries_are_independent(before, after, key@, word);
        law_entries_require_what_they_say(before, after, key@, word);
    }
}

} // verus!

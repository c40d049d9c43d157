//! The persisted settings and the rule that keeps the watched process names
//! sane.
use vstd::prelude::*;
use vstd::string::*;
use crate::text::{ascii_lower, chars_of, contains_chars, has_substring, to_ascii_lowercase};

verus! {

/// The tool's settings.
#[derive(Debug, Clone)]
pub struct Config {
    /// Whether HDR follows Netflix automatically.
    pub auto_enabled: bool,
    /// How long the watcher waits between two looks, in milliseconds.
    pub poll_interval_ms: u64,
    /// Whether HDR is turned off again once Netflix closes.
    pub turn_off_when_netflix_closes: bool,
    /// Keys of the displays to control; empty means every HDR-capable display.
    pub selected_targets: Vec<String>,
    /// Executable names that count as Netflix.
    pub process_names: Vec<String>,
    /// Whether window titles are consulted as well.
    pub detect_window_titles: bool,
}

/// The process name watched when no acceptable one is configured.
pub open spec fn default_process_name() -> Seq<char> {
    "Netflix.exe"@
}

/// A process name is acceptable when it mentions Netflix, in any ASCII case.
pub open spec fn names_netflix(name: Seq<char>) -> bool {
    has_substring(ascii_lower(name), "netflix"@)
}

/// The acceptable names, in their order.
pub open spec fn netflix_names(names: Seq<Seq<char>>) -> Seq<Seq<char>>
    decreases names.len(),
{
    if names.len() == 0 {
        Seq::empty()
    } else if names_netflix(names.last()) {
        netflix_names(names.drop_last()).push(names.last())
    } else {
        netflix_names(names.drop_last())
    }
}

/// The process names after normalisation: the acceptable ones, or the
/// default name when none is.
pub open spec fn normalized_names(names: Seq<Seq<char>>) -> Seq<Seq<char>> {
    if netflix_names(names).len() == 0 {
        seq![default_process_name()]
    } else {
        netflix_names(names)
    }
}

impl Config {
    /// All fields but the process names are those of `other`.
    pub open spec fn same_except_names(self, other: Config) -> bool {
        &&& self.auto_enabled == other.auto_enabled
        &&& self.poll_interval_ms == other.poll_interval_ms
        &&& self.turn_off_when_netflix_closes == other.turn_off_when_netflix_closes
        &&& self.selected_targets@ == other.selected_targets@
        &&& self.detect_window_titles == other.detect_window_titles
    }

    /// Drops the process names that do not mention Netflix and falls back to
    /// the default name when none is left; tells whether anything changed.
    pub fn normalize(&mut self) -> (changed: bool)
        ensures
            final(self).same_except_names(*old(self)),
            final(self).process_names.deep_view() == normalized_names(
                old(self).process_names.deep_view(),
            ),
            changed == (normalized_names(old(self).process_names.deep_view())
                != old(self).process_names.deep_view()),
    {
        let ghost names = self.process_names.deep_view();
        let needle = chars_of("netflix");
        let mut kept: Vec<String> = Vec::new();
        let mut i: usize = 0;
        while i < self.process_names.len()
            invariant
                names == self.process_names.deep_view(),
                needle@ == "netflix"@,
                i <= names.len(),
                kept.deep_view() == netflix_names(names.subrange(0, i as int)),
            decreases names.len() - i,
        {
            let lower = to_ascii_lowercase(self.process_names[i].as_str());
            let lower_chars = chars_of(lower.as_str());
            proof {
                assert(names.subrange(0, i + 1).drop_last() =~= names.subrange(0, i as int));
                assert(names[i as int] == self.process_names@[i as int]@);
            }
            if contains_chars(&lower_chars, &needle) {
                kept.push(self.process_names[i].clone());
            }
            assert(kept.deep_view() =~= netflix_names(names.subrange(0, i + 1)));
            i = i + 1;
        }
        assert(names.subrange(0, names.len() as int) =~= names);
        proof {
            lemma_netflix_names_len(names);
        }
        let changed = kept.len() != self.process_names.len() || self.process_names.len() == 0;
        if kept.len() == 0 {
            kept.push(String::from_str("Netflix.exe"));
            assert(kept.deep_view() =~= seq![default_process_name()]);
            proof {
                if names.len() > 0 {
                    lemma_default_name_accepted();
                    if normalized_names(names) == names {
                        assert(names[0] == default_process_name());
                        assert(names.len() == 1);
                        assert(names.drop_last() =~= Seq::<Seq<char>>::empty());
                    }
                }
            }
        }
        self.process_names = kept;
        changed
    }
}

/// The default process name is acceptable.
pub proof fn lemma_default_name_accepted()
    ensures
        names_netflix(default_process_name()),
{
    reveal_strlit("Netflix.exe");
    reveal_strlit("netflix");
    let lower = ascii_lower("Netflix.exe"@);
    assert(lower.subrange(0, 7) =~= "netflix"@);
    assert(crate::text::occurs_at(lower, "netflix"@, 0));
}

/// Filtering never lengthens, and keeps the length only when it keeps all.
proof fn lemma_netflix_names_len(names: Seq<Seq<char>>)
    ensures
        netflix_names(names).len() <= names.len(),
        netflix_names(names).len() == names.len() ==> netflix_names(names) == names,
    decreases names.len(),
{
    if names.len() > 0 {
        lemma_netflix_names_len(names.drop_last());
        if netflix_names(names).len() == names.len() {
            assert(names_netflix(names.last()));
            assert(names.drop_last().push(names.last()) =~= names);
        }
    }
}

impl Default for Config {
    /// Automatic switching on, a 1500 ms poll, HDR off when Netflix closes,
    /// every display, `Netflix.exe` watched, window titles consulted.
    fn default() -> (c: Self)
        ensures
            c.auto_enabled,
            c.poll_interval_ms == 1500,
            c.turn_off_when_netflix_closes,
            c.selected_targets@.len() == 0,
            c.process_names.deep_view() == seq![default_process_name()],
            c.detect_window_titles,
    {
        let mut process_names: Vec<String> = Vec::new();
        process_names.push(String::from_str("Netflix.exe"));
        assert(process_names.deep_view() =~= seq![default_process_name()]);
        Config {
            auto_enabled: true,
            poll_interval_ms: 1500,
            turn_off_when_netflix_closes: true,
            selected_targets: Vec::new(),
            process_names,
            detect_window_titles: true,
        }
    }
}

proof fn lemma_netflix_names_accepted(names: Seq<Seq<char>>)
    ensures
        forall|k: int| 0 <= k < netflix_names(names).len() ==> names_netflix(#[trigger] netflix_names(names)[k]),
    decreases names.len(),
{
    if names.len() > 0 {
        let rest = names.drop_last();
        lemma_netflix_names_accepted(rest);
        assert forall|k: int| 0 <= k < netflix_names(names).len() implies names_netflix(
            #[trigger] netflix_names(names)[k],
        ) by {
            if k < netflix_names(rest).len() {
                assert(netflix_names(names)[k] == netflix_names(rest)[k]);
            }
        }
    }
}

proof fn lemma_netflix_names_of_accepted(names: Seq<Seq<char>>)
    requires
        forall|k: int| 0 <= k < names.len() ==> names_netflix(#[trigger] names[k]),
    ensures
        netflix_names(names) == names,
    decreases names.len(),
{
    if names.len() > 0 {
        lemma_netflix_names_of_accepted(names.drop_last());
        assert(names.drop_last().push(names.last()) =~= names);
    }
}

/// After normalisation at least one process name is watched, and every
/// watched name mentions Netflix.
pub proof fn law_normalized_names_accepted(names: Seq<Seq<char>>)
    ensures
        normalized_names(names).len() > 0,
        forall|k: int| 0 <= k < normalized_names(names).len() ==> names_netflix(#[trigger] normalized_names(names)[k]),
{
    lemma_netflix_names_accepted(names);
    lemma_default_name_accepted();
}

/// Normalising twice is normalising once: a second pass changes nothing.
pub proof fn law_normalize_idempotent(names: Seq<Seq<char>>)
    ensures
        normalized_names(normalized_names(names)) == normalized_names(names),
{
    law_normalized_names_accepted(names);
    lemma_netflix_names_of_accepted(normalized_names(names));
}

} // verus!

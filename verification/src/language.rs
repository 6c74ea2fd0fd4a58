//! The language that the assistant answers in.
use crate::display::opt_str;
use crate::text::{
    chars_of, copy_text, is_char, lemma_split_append, lemma_split_both, lemma_split_nonempty,
    lowercase, lowercase_of, same, split_by, split_char, views,
};
use vstd::prelude::*;

verus! {

/// The marks between the parts of a language code.
pub open spec fn code_mark_pred() -> spec_fn(char) -> bool {
    |c: char| c == '_' || c == '-'
}

/// The part of a text before the first character that satisfies `p`.
pub open spec fn before_first(s: Seq<char>, p: spec_fn(char) -> bool) -> Seq<char>
    decreases s.len(),
{
    if s.len() == 0 || p(s[0]) {
        Seq::empty()
    } else {
        seq![s[0]] + before_first(s.drop_first(), p)
    }
}

/// The name of the language with a primary code, where the code is one of those known by name.
pub open spec fn language_named(primary: Seq<char>) -> Option<Seq<char>> {
    if primary == "zh"@ {
        Some("Chinese"@)
    } else if primary == "ja"@ {
        Some("Japanese"@)
    } else if primary == "ko"@ {
        Some("Korean"@)
    } else if primary == "fr"@ {
        Some("French"@)
    } else if primary == "de"@ {
        Some("German"@)
    } else if primary == "es"@ {
        Some("Spanish"@)
    } else if primary == "ru"@ {
        Some("Russian"@)
    } else {
        None
    }
}

/// The name of a language for the model: by name where its code is known, and the code otherwise.
pub open spec fn friendly_name_of(code: Seq<char>) -> Seq<char> {
    match language_named(before_first(lowercase_of(code), code_mark_pred())) {
        Some(name) => name,
        None => code,
    }
}

/// The part of a text before the first `_` or `-`.
fn primary_part(s: &str) -> (r: String)
    ensures
        r@ == before_first(s@, code_mark_pred()),
{
    let cs = chars_of(s);
    let ghost p = code_mark_pred();
    let mut out = String::new();
    let mut i: usize = 0;
    assert(cs@.skip(0) =~= cs@);
    assert(out@ + before_first(cs@.skip(0), p) =~= before_first(cs@, p));
    while i < cs.len() && cs[i] != '_' && cs[i] != '-'
        invariant
            i <= cs@.len(),
            p == code_mark_pred(),
            out@ + before_first(cs@.skip(i as int), p) == before_first(cs@, p),
        decreases cs.len() - i,
    {
        let ghost before = out@;
        let ghost rest = cs@.skip(i as int);
        out.push(cs[i]);
        i += 1;
        assert(rest.drop_first() =~= cs@.skip(i as int));
        assert(out@ + before_first(cs@.skip(i as int), p) =~= before + (seq![rest[0]]
            + before_first(cs@.skip(i as int), p)));
    }
    assert(before_first(cs@.skip(i as int), p) =~= Seq::empty());
    assert(out@ + Seq::<char>::empty() =~= out@);
    out
}

/// The name of a language for the model.
pub fn friendly_language_name(code: &str) -> (r: String)
    ensures
        r@ == friendly_name_of(code@),
{
    let lower = lowercase(code);
    let part = primary_part(lower.as_str());
    let primary = part.as_str();
    if same(primary, "zh") {
        copy_text("Chinese")
    } else if same(primary, "ja") {
        copy_text("Japanese")
    } else if same(primary, "ko") {
        copy_text("Korean")
    } else if same(primary, "fr") {
        copy_text("French")
    } else if same(primary, "de") {
        copy_text("German")
    } else if same(primary, "es") {
        copy_text("Spanish")
    } else if same(primary, "ru") {
        copy_text("Russian")
    } else {
        copy_text(code)
    }
}

/// The language of answers: the configured one where it is not empty, and otherwise that of the
/// locale, whose part behind the first dot does not count; without a locale it is `en_US`.
pub open spec fn output_language_of(
    configured: Option<Seq<char>>,
    locale: Option<Seq<char>>,
) -> Seq<char> {
    match configured {
        Some(lang) if lang.len() > 0 => friendly_name_of(lang),
        _ => friendly_name_of(
            split_by(
                match locale {
                    Some(l) => l,
                    None => "en_US.UTF-8"@,
                },
                is_char('.'),
            )[0],
        ),
    }
}

/// The language of answers, from the configuration and the `LANG` variable.
pub fn output_language(configured: Option<&str>, locale: Option<&str>) -> (r: String)
    ensures
        r@ == output_language_of(
            opt_str(configured),
            opt_str(locale),
        ),
{
    match configured {
        Some(lang) => {
            if !lang.is_empty() {
                return friendly_language_name(lang);
            }
        },
        None => {},
    }
    let full = match locale {
        Some(l) => l,
        None => "en_US.UTF-8",
    };
    let parts = split_char(full, '.');
    proof {
        lemma_split_nonempty(full@, is_char('.'));
        assert(views(parts@)[0] == parts@[0]@);
    }
    friendly_language_name(parts[0].as_str())
}

/// The override of the answer language that the configuration sets. It is set once: what is set later
/// does not count.
pub struct LanguageOverride {
    pub value: Option<Option<String>>,
}

impl LanguageOverride {
    /// No override set yet.
    pub fn unset() -> (r: LanguageOverride)
        ensures
            r.value is None,
    {
        LanguageOverride { value: None }
    }

    /// Sets the override, unless one was set before.
    pub fn set_output_language_override(&mut self, lang: Option<String>)
        ensures
            old(self).value is None ==> final(self).value == Some(lang),
            old(self).value is Some ==> *final(self) == *old(self),
    {
        if self.value.is_none() {
            self.value = Some(lang);
        }
    }
}

proof fn lemma_before_first(s: Seq<char>, p: spec_fn(char) -> bool)
    ensures
        before_first(s, p).len() <= s.len(),
        before_first(s, p) == s.take(before_first(s, p).len() as int),
        forall|i: int| 0 <= i < before_first(s, p).len() ==> !p(#[trigger] s[i]),
        before_first(s, p).len() < s.len() ==> p(s[before_first(s, p).len() as int]),
    decreases s.len(),
{
    if s.len() > 0 && !p(s[0]) {
        let rest = s.drop_first();
        lemma_before_first(rest, p);
        let r = before_first(s, p);
        assert(r =~= s.take(r.len() as int));
        assert forall|i: int| 0 <= i < r.len() implies !p(#[trigger] s[i]) by {
            if i > 0 {
                assert(s[i] == rest[i - 1]);
            }
        }
        if r.len() < s.len() {
            assert(s[r.len() as int] == rest[r.len() - 1]);
        }
    } else {
        assert(before_first(s, p) =~= s.take(0));
    }
}

proof fn lemma_primary(primary: Seq<char>, rest: Seq<char>)
    requires
        !primary.contains('_') && !primary.contains('-'),
        rest.len() == 0 || rest[0] == '_' || rest[0] == '-',
    ensures
        before_first(primary + rest, code_mark_pred()) == primary,
{
    let p = code_mark_pred();
    let s = primary + rest;
    lemma_before_first(s, p);
    let k = before_first(s, p).len();
    if k < primary.len() {
        assert(p(s[k as int]));
        assert(primary.contains(primary[k as int]));
    }
    if k > primary.len() {
        assert(!p(s[primary.len() as int]));
    }
    assert(s.take(primary.len() as int) =~= primary);
}

/// The languages that have a name: a code in whatever case, alone or with more behind an underscore or a
/// dash, is told by the name of its language. Any other code is told as it is.
pub proof fn law_names_of_languages(code: Seq<char>, primary: Seq<char>, rest: Seq<char>)
    requires
        lowercase_of(code) == primary + rest,
        !primary.contains('_') && !primary.contains('-'),
        rest.len() == 0 || rest[0] == '_' || rest[0] == '-',
    ensures
        primary == "zh"@ ==> friendly_name_of(code) == "Chinese"@,
        primary == "ja"@ ==> friendly_name_of(code) == "Japanese"@,
        primary == "ko"@ ==> friendly_name_of(code) == "Korean"@,
        primary == "fr"@ ==> friendly_name_of(code) == "French"@,
        primary == "de"@ ==> friendly_name_of(code) == "German"@,
        primary == "es"@ ==> friendly_name_of(code) == "Spanish"@,
        primary == "ru"@ ==> friendly_name_of(code) == "Russian"@,
        primary != "zh"@ && primary != "ja"@ && primary != "ko"@ && primary != "fr"@ && primary
            != "de"@ && primary != "es"@ && primary != "ru"@ ==> friendly_name_of(code) == code,
{
    lemma_primary(primary, rest);
    reveal_strlit("zh");
    reveal_strlit("ja");
    reveal_strlit("ko");
    reveal_strlit("fr");
    reveal_strlit("de");
    reveal_strlit("es");
    reveal_strlit("ru");
    assert("zh"@[0] == 'z' && "ja"@[0] == 'j' && "ko"@[0] == 'k' && "fr"@[0] == 'f' && "de"@[0]
        == 'd' && "es"@[0] == 'e' && "ru"@[0] == 'r');
}

/// A configured language counts before the locale; an empty one does not. Of the locale only the part
/// before its first dot counts, and without a locale it is English.
pub proof fn law_which_language_counts(
    lang: Seq<char>,
    configured: Option<Seq<char>>,
    locale: Option<Seq<char>>,
    name: Seq<char>,
    rest: Seq<char>,
)
    requires
        configured is None || configured->0.len() == 0,
        !name.contains('.'),
        rest.len() == 0 || rest[0] == '.',
    ensures
        lang.len() > 0 ==> output_language_of(Some(lang), locale) == friendly_name_of(lang),
        output_language_of(configured, Some(name + rest)) == friendly_name_of(name),
        output_language_of(configured, None) == friendly_name_of("en_US"@),
{
    lemma_first_piece(name, rest);
    reveal_strlit("en_US.UTF-8");
    reveal_strlit("en_US");
    let us = "en_US"@;
    let code = seq!['.', 'U', 'T', 'F', '-', '8'];
    assert("en_US.UTF-8"@ =~= us + code);
    assert forall|i: int| 0 <= i < us.len() implies #[trigger] us[i] != '.' by {}
    lemma_first_piece(us, code);
}

proof fn lemma_first_piece(name: Seq<char>, rest: Seq<char>)
    requires
        !name.contains('.'),
        rest.len() == 0 || rest[0] == '.',
    ensures
        split_by(name + rest, is_char('.'))[0] == name,
{
    let p = is_char('.');
    let none = Seq::<char>::empty();
    assert forall|i: int| 0 <= i < name.len() implies !p(#[trigger] name[i]) by {
        assert(name.contains(name[i]));
    }
    lemma_split_append(none, name, p);
    assert(split_by(none, p) =~= seq![none]);
    assert(none + name =~= name);
    assert(split_by(name, p) =~= seq![name]);
    if rest.len() == 0 {
        assert(name + rest =~= name);
    } else {
        let behind = rest.skip(1);
        assert(name + rest =~= name.push('.') + behind);
        lemma_split_both(name, '.', behind, p);
    }
}

} // verus!

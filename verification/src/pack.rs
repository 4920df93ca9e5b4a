//! Content packs and the template composition engine.
//!
//! A pack bundles phrase templates, connector strings ("conjunctions") and
//! word lists.  A message's text is composed from a pack and the author's
//! chosen indices: a first clause, and optionally a conjunction joining a
//! second clause.  Every lookup that does not resolve within the pack is a
//! hard failure (`None`), never a silent default.
//!
//! The whole engine is specified against [`Pack::spec_format`], a pure
//! mathematical description of the composed text.

use vstd::prelude::*;

verus! {

/// A phrase skeleton: either a bare text, or a text together with its own
/// private word list.
pub enum Template {
    Basic(String),
    List { template: String, words: Vec<String> },
}

/// A named, ordered list of fill-in words, referenced by position.
pub struct WordList {
    pub name: String,
    pub words: Vec<String>,
}

/// A reusable content bundle defining the available message phrasing.
pub struct Pack {
    pub name: String,
    pub id: u128,
    pub visible: bool,
    pub order: u8,
    pub templates: Vec<Template>,
    pub conjunctions: Option<Vec<String>>,
    pub words: Option<Vec<WordList>>,
}

/// The three characters `{0}` starting at position `i` of `s`: the fill-in
/// marker of a template.
pub open spec fn placeholder_at(s: Seq<char>, i: int) -> bool {
    &&& 0 <= i
    &&& i + 3 <= s.len()
    &&& s[i] == '{'
    &&& s[i + 1] == '0'
    &&& s[i + 2] == '}'
}

/// Whether `s` contains the placeholder marker anywhere.
pub open spec fn has_placeholder(s: Seq<char>) -> bool {
    exists|i: int| placeholder_at(s, i)
}

/// `s` with every occurrence of the placeholder replaced by `word`,
/// scanning left to right without revisiting substituted text.
pub open spec fn replaced(s: Seq<char>, word: Seq<char>) -> Seq<char>
    decreases s.len(),
{
    if s.len() < 3 {
        s
    } else if placeholder_at(s, 0) {
        word + replaced(s.skip(3), word)
    } else {
        seq![s[0]] + replaced(s.skip(1), word)
    }
}

/// Composition is pure: any two results that [`Pack::format`]'s contract
/// admits for the same pack and the same chosen indices are the same —
/// both failures, or both the same text.
pub proof fn lemma_compose_pure(
    pack: Pack,
    template_1_idx: usize,
    word_1_idx: Option<(usize, usize)>,
    conjunction: Option<usize>,
    template_2_idx: Option<usize>,
    word_2_idx: Option<(usize, usize)>,
    first: Option<String>,
    second: Option<String>,
)
    requires
        (match first {
            Option::Some(s) => pack.spec_format(
                template_1_idx as int,
                word_1_idx,
                conjunction,
                template_2_idx,
                word_2_idx,
            ) == Option::Some(s@),
            Option::None => pack.spec_format(
                template_1_idx as int,
                word_1_idx,
                conjunction,
                template_2_idx,
                word_2_idx,
            ) is None,
        }),
        (match second {
            Option::Some(s) => pack.spec_format(
                template_1_idx as int,
                word_1_idx,
                conjunction,
                template_2_idx,
                word_2_idx,
            ) == Option::Some(s@),
            Option::None => pack.spec_format(
                template_1_idx as int,
                word_1_idx,
                conjunction,
                template_2_idx,
                word_2_idx,
            ) is None,
        }),
    ensures
        (match (first, second) {
            (Option::Some(a), Option::Some(b)) => a@ == b@,
            (Option::None, Option::None) => true,
            _ => false,
        }),
{
}

/// A text without the placeholder is left unchanged by substitution.
pub proof fn lemma_replaced_no_placeholder(s: Seq<char>, word: Seq<char>)
    requires
        !has_placeholder(s),
    ensures
        replaced(s, word) == s,
    decreases s.len(),
{
    if s.len() < 3 {
    } else {
        assert(!placeholder_at(s, 0));
        assert forall|i: int| !placeholder_at(s.skip(1), i) by {
            if placeholder_at(s.skip(1), i) {
                assert(s.skip(1)[i] == s[i + 1]);
                assert(s.skip(1)[i + 1] == s[i + 2]);
                assert(s.skip(1)[i + 2] == s[i + 3]);
                assert(placeholder_at(s, i + 1));
            }
        }
        lemma_replaced_no_placeholder(s.skip(1), word);
        assert(seq![s[0]] + s.skip(1) =~= s);
    }
}

impl Template {
    /// The template's text, whichever variant carries it.
    pub open spec fn spec_text(self) -> Seq<char> {
        match self {
            Template::Basic(template) => template@,
            Template::List { template, .. } => template@,
        }
    }

    /// The template's text.
    pub fn template(&self) -> (text: &str)
        ensures
            text@ == self.spec_text(),
    {
        match self {
            Template::Basic(template) => template.as_str(),
            Template::List { template, .. } => template.as_str(),
        }
    }

    /// Whether this template requires a word: true exactly when its text
    /// contains the placeholder marker.
    pub fn requires_word(&self) -> (required: bool)
        ensures
            required == has_placeholder(self.spec_text()),
    {
        let text = self.template();
        let n = text.unicode_len();
        let mut i: usize = 0;
        while i < n
            invariant
                i <= n,
                n == text@.len(),
                text@ == self.spec_text(),
                forall|j: int| 0 <= j < i ==> !placeholder_at(text@, j),
            decreases n - i,
        {
            if n - i >= 3 {
                if text.get_char(i) == '{' && text.get_char(i + 1) == '0' && text.get_char(i + 2)
                    == '}' {
                    assert(placeholder_at(text@, i as int));
                    return true;
                }
            }
            i = i + 1;
        }
        proof {
            if has_placeholder(text@) {
                let j = choose|j: int| placeholder_at(text@, j);
                assert(!placeholder_at(text@, j));
            }
        }
        false
    }

    /// The template's text with every placeholder replaced by `word`; a
    /// text without the placeholder comes back unchanged.
    pub fn format(&self, word: &str) -> (formatted: String)
        ensures
            formatted@ == replaced(self.spec_text(), word@),
            !has_placeholder(self.spec_text()) ==> formatted@ == self.spec_text(),
    {
        proof {
            if !has_placeholder(self.spec_text()) {
                lemma_replaced_no_placeholder(self.spec_text(), word@);
            }
        }
        let text = self.template();
        let n = text.unicode_len();
        let mut out = String::new();
        let mut i: usize = 0;
        proof {
            assert(text@.skip(0) =~= text@);
            assert(Seq::<char>::empty() + replaced(text@, word@) =~= replaced(text@, word@));
        }
        while i < n
            invariant
                i <= n,
                n == text@.len(),
                text@ == self.spec_text(),
                out@ + replaced(text@.skip(i as int), word@) == replaced(text@, word@),
            decreases n - i,
        {
            let ghost rest = text@.skip(i as int);
            if n - i >= 3 && text.get_char(i) == '{' && text.get_char(i + 1) == '0'
                && text.get_char(i + 2) == '}' {
                proof {
                    assert(rest[0] == text@[i as int]);
                    assert(rest[1] == text@[i + 1]);
                    assert(rest[2] == text@[i + 2]);
                    assert(placeholder_at(rest, 0));
                    assert(rest.skip(3) =~= text@.skip(i + 3));
                    assert(replaced(rest, word@) == word@ + replaced(text@.skip(i + 3), word@));
                    assert((out@ + word@) + replaced(text@.skip(i + 3), word@) =~= out@ + (word@
                        + replaced(text@.skip(i + 3), word@)));
                }
                out.append(word);
                i = i + 3;
            } else {
                let c = text.substring_char(i, i + 1);
                proof {
                    assert(c@ =~= seq![text@[i as int]]);
                    assert(rest.skip(1) =~= text@.skip(i + 1));
                    if rest.len() < 3 {
                        assert(replaced(rest, word@) == rest);
                        assert(replaced(text@.skip(i + 1), word@) == text@.skip(i + 1));
                        assert(rest =~= seq![text@[i as int]] + text@.skip(i + 1));
                    } else {
                        assert(rest[0] == text@[i as int]);
                        assert(rest[1] == text@[i + 1]);
                        assert(rest[2] == text@[i + 2]);
                        assert(!placeholder_at(rest, 0));
                        assert(replaced(rest, word@) == seq![rest[0]] + replaced(
                            rest.skip(1),
                            word@,
                        ));
                    }
                    assert((out@ + c@) + replaced(text@.skip(i + 1), word@) =~= out@ + (c@
                        + replaced(text@.skip(i + 1), word@)));
                }
                out.append(c);
                i = i + 1;
            }
        }
        proof {
            assert(text@.skip(n as int) =~= Seq::<char>::empty());
            assert(out@ + Seq::<char>::empty() =~= out@);
        }
        out
    }
}

/// Whether `c` is one of the ASCII punctuation characters.
pub open spec fn spec_is_ascii_punctuation(c: char) -> bool {
    let u = c as int;
    (33 <= u <= 47) || (58 <= u <= 64) || (91 <= u <= 96) || (123 <= u <= 126)
}

/// Whether `s` is exactly one ASCII punctuation character.
pub open spec fn spec_single_punctuation(s: Seq<char>) -> bool {
    s.len() == 1 && spec_is_ascii_punctuation(s[0])
}

/// Whether a conjunction string is a single ASCII punctuation mark, which
/// decides how the two clauses are joined.
pub fn is_single_punctuation(s: &String) -> (single: bool)
    ensures
        single == spec_single_punctuation(s@),
{
    let text = s.as_str();
    if text.unicode_len() == 1 {
        let c = text.get_char(0);
        let u = c as u32;
        (33 <= u && u <= 47) || (58 <= u && u <= 64) || (91 <= u && u <= 96) || (123 <= u && u
            <= 126)
    } else {
        false
    }
}

/// The two composed clauses joined by a conjunction: a single punctuation
/// mark binds tightly before the line break; any other conjunction stands
/// on the second line, a space before its clause.
pub open spec fn spec_join(clause_1: Seq<char>, conjunction: Seq<char>, clause_2: Seq<char>) -> Seq<
    char,
> {
    if spec_single_punctuation(conjunction) {
        clause_1 + conjunction + seq!['\n'] + clause_2
    } else {
        clause_1 + seq!['\n'] + conjunction + seq![' '] + clause_2
    }
}

impl Pack {
    /// The word at `word_idx` of the pack-level word list at `list_idx`,
    /// if both resolve.
    pub open spec fn spec_get_word(self, list_idx: int, word_idx: int) -> Option<Seq<char>> {
        match self.words {
            Option::None => Option::None,
            Option::Some(lists) => if 0 <= list_idx < lists@.len() {
                if 0 <= word_idx < lists@[list_idx].words@.len() {
                    Option::Some(lists@[list_idx].words@[word_idx]@)
                } else {
                    Option::None
                }
            } else {
                Option::None
            },
        }
    }

    fn get_word(&self, list_idx: usize, word_idx: usize) -> (word: Option<&str>)
        ensures
            match word {
                Option::Some(w) => self.spec_get_word(list_idx as int, word_idx as int)
                    == Option::Some(w@),
                Option::None => self.spec_get_word(list_idx as int, word_idx as int)
                    is None,
            },
    {
        match &self.words {
            Option::None => Option::None,
            Option::Some(lists) => {
                if list_idx >= lists.len() {
                    return Option::None;
                }
                let list = &lists[list_idx];
                if word_idx >= list.words.len() {
                    return Option::None;
                }
                Option::Some(list.words[word_idx].as_str())
            },
        }
    }

    /// The word a selection resolves to: a `List` template draws from its
    /// own private list (the list selector is ignored), a `Basic` template
    /// from the pack-level word lists.
    pub open spec fn spec_word_for(self, template: Template, list_idx: int, word_idx: int) -> Option<
        Seq<char>,
    > {
        match template {
            Template::Basic(_) => self.spec_get_word(list_idx, word_idx),
            Template::List { words, .. } => if 0 <= word_idx < words@.len() {
                Option::Some(words@[word_idx]@)
            } else {
                Option::None
            },
        }
    }

    /// The template's text with the selected word substituted, if the
    /// selection resolves.
    pub open spec fn spec_replace(self, template: Template, list_idx: int, word_idx: int) -> Option<
        Seq<char>,
    > {
        match self.spec_word_for(template, list_idx, word_idx) {
            Option::None => Option::None,
            Option::Some(word) => Option::Some(replaced(template.spec_text(), word)),
        }
    }

    fn replace(&self, template: &Template, list_idx: usize, word_idx: usize) -> (clause: Option<
        String,
    >)
        ensures
            match clause {
                Option::Some(s) => self.spec_replace(*template, list_idx as int, word_idx as int)
                    == Option::Some(s@),
                Option::None => self.spec_replace(*template, list_idx as int, word_idx as int)
                    is None,
            },
    {
        let word: &str = match template {
            Template::Basic(_) => {
                match self.get_word(list_idx, word_idx) {
                    Option::Some(w) => w,
                    Option::None => {
                        return Option::None;
                    },
                }
            },
            Template::List { words, .. } => {
                if word_idx >= words.len() {
                    return Option::None;
                }
                words[word_idx].as_str()
            },
        };
        Option::Some(template.format(word))
    }

    /// One clause: the template's text as it stands when it requires no
    /// word (a present selection is ignored), or with the selected word
    /// substituted.  A required but missing or unresolvable selection is a
    /// failure.
    pub open spec fn spec_partial_format(self, template: Template, word_idx: Option<
        (usize, usize),
    >) -> Option<Seq<char>> {
        if has_placeholder(template.spec_text()) {
            match word_idx {
                Option::None => Option::None,
                Option::Some(sel) => self.spec_replace(template, sel.0 as int, sel.1 as int),
            }
        } else {
            Option::Some(template.spec_text())
        }
    }

    fn partial_format(&self, template: &Template, word_idx: Option<(usize, usize)>) -> (clause:
        Option<String>)
        ensures
            match clause {
                Option::Some(s) => self.spec_partial_format(*template, word_idx) == Option::Some(
                    s@,
                ),
                Option::None => self.spec_partial_format(*template, word_idx) is None,
            },
    {
        let requires_word = template.requires_word();
        if requires_word {
            match word_idx {
                Option::None => Option::None,
                Option::Some((list_idx, word_idx)) => self.replace(template, list_idx, word_idx),
            }
        } else {
            Option::Some(String::from_str(template.template()))
        }
    }

    /// Whether the pack offers any conjunction at all.
    pub open spec fn spec_has_conjunctions(self) -> bool {
        match self.conjunctions {
            Option::Some(conjunctions) => conjunctions@.len() > 0,
            Option::None => false,
        }
    }

    /// The composed text: clause one, and, exactly when a conjunction
    /// index, a second template index and a non-empty conjunction list are
    /// all present, a conjunction and clause two.  `None` is the single
    /// failure: some chosen index did not resolve within this pack.
    pub open spec fn spec_format(
        self,
        template_1_idx: int,
        word_1_idx: Option<(usize, usize)>,
        conjunction: Option<usize>,
        template_2_idx: Option<usize>,
        word_2_idx: Option<(usize, usize)>,
    ) -> Option<Seq<char>> {
        if !(0 <= template_1_idx < self.templates@.len()) {
            Option::None
        } else {
            match self.spec_partial_format(self.templates@[template_1_idx], word_1_idx) {
                Option::None => Option::None,
                Option::Some(clause_1) => {
                    match (conjunction, template_2_idx) {
                        (Option::Some(conj_idx), Option::Some(t2_idx)) => {
                            if !self.spec_has_conjunctions() {
                                Option::Some(clause_1)
                            } else if !(t2_idx < self.templates@.len()) {
                                Option::None
                            } else {
                                match self.spec_partial_format(
                                    self.templates@[t2_idx as int],
                                    word_2_idx,
                                ) {
                                    Option::None => Option::None,
                                    Option::Some(clause_2) => {
                                        match self.conjunctions {
                                            Option::None => Option::None,
                                            Option::Some(conjunctions) => {
                                                if !(conj_idx < conjunctions@.len()) {
                                                    Option::None
                                                } else {
                                                    Option::Some(
                                                        spec_join(
                                                            clause_1,
                                                            conjunctions@[conj_idx as int]@,
                                                            clause_2,
                                                        ),
                                                    )
                                                }
                                            },
                                        }
                                    },
                                }
                            }
                        },
                        _ => Option::Some(clause_1),
                    }
                },
            }
        }
    }

    /// Compose a message's text from this pack and the author's chosen
    /// indices.  Returns the composed text, or `None` when any chosen
    /// index fails to resolve — the engine's single error.
    pub fn format(
        &self,
        template_1_idx: usize,
        word_1_idx: Option<(usize, usize)>,
        conjunction: Option<usize>,
        template_2_idx: Option<usize>,
        word_2_idx: Option<(usize, usize)>,
    ) -> (composed: Option<String>)
        ensures
            match composed {
                Option::Some(s) => self.spec_format(
                    template_1_idx as int,
                    word_1_idx,
                    conjunction,
                    template_2_idx,
                    word_2_idx,
                ) == Option::Some(s@),
                Option::None => self.spec_format(
                    template_1_idx as int,
                    word_1_idx,
                    conjunction,
                    template_2_idx,
                    word_2_idx,
                ) is None,
            },
    {
        if template_1_idx >= self.templates.len() {
            return Option::None;
        }
        let template_1 = &self.templates[template_1_idx];
        let mut formatted = match self.partial_format(template_1, word_1_idx) {
            Option::Some(f) => f,
            Option::None => {
                return Option::None;
            },
        };
        if conjunction.is_some() && template_2_idx.is_some() {
            match &self.conjunctions {
                Option::Some(conjunctions) => {
                    if conjunctions.len() > 0 {
                        let conj_idx = conjunction.unwrap();
                        let t2_idx = template_2_idx.unwrap();
                        if t2_idx >= self.templates.len() {
                            return Option::None;
                        }
                        let template_2 = &self.templates[t2_idx];
                        let appended = match self.partial_format(template_2, word_2_idx) {
                            Option::Some(a) => a,
                            Option::None => {
                                return Option::None;
                            },
                        };
                        if conj_idx >= conjunctions.len() {
                            return Option::None;
                        }
                        let conj = &conjunctions[conj_idx];
                        proof {
                            reveal_strlit("\n");
                            reveal_strlit(" ");
                            assert(("\n")@ =~= seq!['\n']);
                            assert((" ")@ =~= seq![' ']);
                        }
                        if is_single_punctuation(conj) {
                            formatted.append(conj.as_str());
                            formatted.append("\n");
                        } else {
                            formatted.append("\n");
                            formatted.append(conj.as_str());
                            formatted.append(" ");
                        }
                        formatted.append(appended.as_str());
                        proof {
                            assert(formatted@ =~= spec_join(
                                self.spec_partial_format(
                                    self.templates@[template_1_idx as int],
                                    word_1_idx,
                                ).unwrap(),
                                conjunctions@[conj_idx as int]@,
                                self.spec_partial_format(
                                    self.templates@[t2_idx as int],
                                    word_2_idx,
                                ).unwrap(),
                            ));
                        }
                    }
                },
                Option::None => {},
            }
        }
        Option::Some(formatted)
    }
}

} // verus!

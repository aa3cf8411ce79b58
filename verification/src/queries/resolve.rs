//! Turning the names a person uses into the ids the database uses.
//!
//! Names are typed loosely, so matching is layered, and an ambiguous result is
//! handed back as candidates rather than guessed at.
use rusqlite::Connection;
use vstd::prelude::*;

use crate::ordering::{
    a_stable_order_exists, positions, ranks, sorted_positions, sorts, stable_order, Rank, SortKey,
};
use crate::queries::edit::{distance, edit_distance};
use crate::store::language::folded;
use crate::store::sql::{
    agree, agrees, answered, cells, decode_rows, decoded, get_text, query, refused, table, text_in,
    Cell, QueryError, SqlCell, SqlValue,
};
use crate::text::{
    a_part_is_contained, a_word_is_its_own, ascii_lowercase, blank_has_no_words, chars_of,
    contains_chars, contains_text, gaps_make_no_words, is_ascii_text, is_blank, is_word, join,
    joined, joined_words_come_apart, joining_starts_with_the_first, lowercase, matches_at,
    padding_makes_no_words, parts_are_contained, quote, quoted, same_text, split_words, stands_at,
    text_less, text_order_is_total, texts, to_lowercase, white_space, words, words_are_words,
    words_of_both,
};

verus! {

/// Ambiguous matches beyond this are noise; the caller needs enough to choose
/// between, not an inventory.
pub const MAX_CANDIDATES: usize = 10;

/// Suggestions offered when nothing matched.
pub const MAX_SUGGESTIONS: usize = 5;

/// Something that can be named: an id, and the name a person would type.
#[derive(Debug, PartialEq, Eq)]
pub struct Named {
    pub id: String,
    pub name: String,
}

impl Clone for Named {
    fn clone(&self) -> (r: Self)
        ensures
            r == *self,
    {
        Named { id: self.id.clone(), name: self.name.clone() }
    }
}

/// The contents of a [`Named`].
pub struct Entry {
    pub id: Seq<char>,
    pub name: Seq<char>,
}

impl View for Named {
    type V = Entry;

    open spec fn view(&self) -> Entry {
        Entry { id: self.id@, name: self.name@ }
    }
}

/// The outcome of a name lookup. None of it is an error: a name that matches
/// several things is a result the caller can act on.
#[derive(Debug, Clone, PartialEq)]
pub enum Resolution {
    /// Exactly one match.
    One(Named),
    /// Several equally good matches, capped at [`MAX_CANDIDATES`].
    Ambiguous(Vec<Named>),
    /// Nothing matched. `suggestions` is a best-effort shortlist.
    Nothing { suggestions: Vec<Named> },
}

/// The contents of a [`Resolution`].
pub enum Answer {
    One(Named),
    Ambiguous(Seq<Named>),
    Nothing(Seq<Named>),
}

impl View for Resolution {
    type V = Answer;

    open spec fn view(&self) -> Answer {
        match self {
            Resolution::One(named) => Answer::One(*named),
            Resolution::Ambiguous(candidates) => Answer::Ambiguous(candidates@),
            Resolution::Nothing { suggestions } => Answer::Nothing(suggestions@),
        }
    }
}

/// Lowercase, with no white space at the ends and single spaces between words.
pub open spec fn normalised(text: Seq<char>) -> Seq<char> {
    joined(words(text).map_values(|word: Seq<char>| lowercase(word)), seq![' '])
}

/// How a candidate may match, from the strictest way to the loosest.
#[derive(Clone, Copy)]
pub enum Tier {
    Exact,
    Prefix,
    Substring,
    /// Any word of the candidate starts with the needle, so "fitness" finds
    /// "Health & Fitness".
    Word,
}

impl Tier {
    /// Whether a normalised name matches a normalised needle in this way.
    pub open spec fn accepts(self, name: Seq<char>, needle: Seq<char>) -> bool {
        match self {
            Tier::Exact => name == needle,
            Tier::Prefix => stands_at(name, needle, 0),
            Tier::Substring => contains_text(name, needle),
            Tier::Word => exists|i: int|
                0 <= i < words(name).len() && stands_at(#[trigger] words(name)[i], needle, 0),
        }
    }

    pub fn matches(self, name: &str, needle: &str) -> (r: bool)
        ensures
            r == self.accepts(name@, needle@),
    {
        match self {
            Tier::Exact => same_text(name, needle),
            Tier::Prefix => matches_at(&chars_of(name), &chars_of(needle), 0),
            Tier::Substring => contains_chars(&chars_of(name), &chars_of(needle)),
            Tier::Word => {
                let parts = split_words(name);
                let wanted = chars_of(needle);
                let mut i: usize = 0;
                while i < parts.len()
                    invariant
                        i <= parts@.len(),
                        texts(parts@) == words(name@),
                        wanted@ == needle@,
                        self is Word,
                        forall|k: int| 0 <= k < i ==> !stands_at(#[trigger] words(name@)[k], needle@, 0),
                    decreases parts@.len() - i,
                {
                    assert(words(name@)[i as int] == parts@[i as int]@);
                    if matches_at(&chars_of(parts[i].as_str()), &wanted, 0) {
                        return true;
                    }
                    i += 1;
                }
                assert(parts@.len() == words(name@).len());
                false
            },
        }
    }
}

/// The candidates whose names match in one way, in the order they came in.
pub open spec fn hits(candidates: Seq<Named>, tier: Tier, needle: Seq<char>) -> Seq<Named> {
    candidates.filter(|c: Named| tier.accepts(normalised(c.name@), needle))
}

/// The first tier, from the strictest on, in which anything matches.
pub open spec fn winning_tier(candidates: Seq<Named>, needle: Seq<char>) -> Option<Tier> {
    if hits(candidates, Tier::Exact, needle).len() > 0 {
        Some(Tier::Exact)
    } else if hits(candidates, Tier::Prefix, needle).len() > 0 {
        Some(Tier::Prefix)
    } else if hits(candidates, Tier::Substring, needle).len() > 0 {
        Some(Tier::Substring)
    } else if hits(candidates, Tier::Word, needle).len() > 0 {
        Some(Tier::Word)
    } else {
        None
    }
}

/// How many edits a name may be away from the needle and still be suggested.
pub open spec fn tolerance(needle: Seq<char>) -> nat {
    if needle.len() / 3 >= 2 {
        needle.len() / 3
    } else {
        2
    }
}

/// The candidates whose names are within the tolerance.
pub open spec fn nearby(candidates: Seq<Named>, needle: Seq<char>) -> Seq<Named> {
    candidates.filter(
        |c: Named| distance(normalised(c.name@), needle) <= tolerance(needle),
    )
}

/// Suggestions come nearest first, by name among the equally near.
pub open spec fn nearness(needle: Seq<char>, c: Named) -> Rank {
    Rank {
        rank: distance(normalised(c.name@), needle),
        major: c.name@,
        minor: Seq::empty(),
    }
}

/// The nearest names by edit distance, for typos like "grocries".
pub open spec fn suggestions(candidates: Seq<Named>, needle: Seq<char>) -> Seq<Named> {
    let near = nearby(candidates, needle);
    let order = stable_order(near.map_values(|c: Named| nearness(needle, c)));
    first_of(order.map_values(|i: int| near[i]), MAX_SUGGESTIONS as nat)
}

/// At most the first `limit` items.
pub open spec fn first_of<T>(items: Seq<T>, limit: nat) -> Seq<T> {
    if items.len() <= limit {
        items
    } else {
        items.take(limit as int)
    }
}

/// What a typed name stands for among the candidates.
pub open spec fn answer(candidates: Seq<Named>, query: Seq<char>) -> Answer {
    let needle = normalised(query);
    if needle.len() == 0 {
        Answer::Nothing(Seq::empty())
    } else {
        match winning_tier(candidates, needle) {
            None => Answer::Nothing(suggestions(candidates, needle)),
            Some(tier) => {
                let found = hits(candidates, tier, needle);
                if found.len() == 1 {
                    Answer::One(found[0])
                } else {
                    Answer::Ambiguous(first_of(found, MAX_CANDIDATES as nat))
                }
            },
        }
    }
}

/// The names of a list of things, quoted.
pub open spec fn quoted_names(items: Seq<Named>) -> Seq<Seq<char>> {
    items.map_values(|item: Named| quoted(item.name@))
}

/// A sentence about the outcome of looking `query` up among things of one kind.
pub open spec fn sentence(found: Answer, kind: Seq<char>, query: Seq<char>) -> Seq<char> {
    match found {
        Answer::One(named) => kind + " "@ + quoted(query) + " resolved to "@ + quoted(named.name@),
        Answer::Ambiguous(candidates) => quoted(query) + " matches several "@ + kind + "s: "@
            + joined(quoted_names(candidates), ", "@)
            + ". Call again with one of these exact names."@,
        Answer::Nothing(near) => if near.len() == 0 {
            "No "@ + kind + " matches "@ + quoted(query) + "."@
        } else {
            "No "@ + kind + " matches "@ + quoted(query) + ". Did you mean: "@
                + joined(quoted_names(near), ", "@) + "?"@
        },
    }
}

impl Resolution {
    /// The match, where there is exactly one.
    pub fn one(self) -> (r: Option<Named>)
        ensures
            r == (match self@ {
                Answer::One(named) => Some(named),
                _ => None::<Named>,
            }),
    {
        match self {
            Resolution::One(named) => Some(named),
            _ => None,
        }
    }

    /// A sentence the model can act on, for tools that report the miss inline.
    pub fn describe(&self, kind: &str, query: &str) -> (r: String)
        ensures
            r@ == sentence(self@, kind@, query@),
    {
        let mut out = String::new();
        match self {
            Resolution::One(named) => {
                out.append(kind);
                out.append(" ");
                out.append(quote(query).as_str());
                out.append(" resolved to ");
                out.append(quote(named.name.as_str()).as_str());
            },
            Resolution::Ambiguous(candidates) => {
                out.append(quote(query).as_str());
                out.append(" matches several ");
                out.append(kind);
                out.append("s: ");
                out.append(names(candidates).as_str());
                out.append(". Call again with one of these exact names.");
            },
            Resolution::Nothing { suggestions } => {
                out.append("No ");
                out.append(kind);
                out.append(" matches ");
                out.append(quote(query).as_str());
                if suggestions.len() == 0 {
                    out.append(".");
                } else {
                    out.append(". Did you mean: ");
                    out.append(names(suggestions).as_str());
                    out.append("?");
                }
            },
        }
        assert(out@ =~= sentence(self@, kind@, query@));
        out
    }
}

/// The names of a list of things, quoted and separated by commas.
pub fn names(items: &Vec<Named>) -> (r: String)
    ensures
        r@ == joined(quoted_names(items@), ", "@),
{
    let mut parts: Vec<String> = Vec::new();
    let mut i: usize = 0;
    while i < items.len()
        invariant
            i <= items@.len(),
            texts(parts@) == quoted_names(items@).take(i as int),
        decreases items@.len() - i,
    {
        let ghost before = texts(parts@);
        parts.push(quote(items[i].name.as_str()));
        assert(texts(parts@) =~= before.push(quoted(items@[i as int].name@)));
        i += 1;
        assert(texts(parts@) =~= quoted_names(items@).take(i as int));
    }
    assert(texts(parts@) =~= quoted_names(items@));
    join(&parts, ", ")
}

/// Lowercase, trim, and collapse internal white space.
pub fn normalise(s: &str) -> (r: String)
    ensures
        r@ == normalised(s@),
        r@.len() == 0 <==> is_blank(s@),
{
    proof {
        blank_has_no_words(s@);
    }
    let parts = split_words(s);
    let mut lowered: Vec<String> = Vec::new();
    let ghost wanted = words(s@).map_values(|word: Seq<char>| lowercase(word));
    let mut i: usize = 0;
    while i < parts.len()
        invariant
            i <= parts@.len(),
            texts(parts@) == words(s@),
            wanted == words(s@).map_values(|word: Seq<char>| lowercase(word)),
            texts(lowered@) == wanted.take(i as int),
            forall|k: int| 0 <= k < i ==> (#[trigger] wanted[k]).len() > 0,
        decreases parts@.len() - i,
    {
        let ghost before = texts(lowered@);
        assert(words(s@)[i as int] == parts@[i as int]@);
        proof {
            words_are_words(s@, i as int);
        }
        lowered.push(to_lowercase(parts[i].as_str()));
        assert(texts(lowered@) =~= before.push(wanted[i as int]));
        i += 1;
        assert(texts(lowered@) =~= wanted.take(i as int));
    }
    assert(parts@.len() == words(s@).len());
    assert(texts(lowered@) =~= wanted);
    proof {
        reveal_strlit(" ");
        assert(" "@ =~= seq![' ']);
        if wanted.len() > 1 {
            assert(joined(wanted, seq![' ']).len() > 0);
        } else if wanted.len() == 1 {
            assert(wanted[0].len() > 0);
        }
    }
    join(&lowered, " ")
}

/// The candidates whose names match in one way. `prepared` holds their names,
/// normalised.
fn hits_of(candidates: &[Named], prepared: &Vec<String>, tier: Tier, needle: &str) -> (r: Vec<Named>)
    requires
        prepared@.len() == candidates@.len(),
        forall|k: int|
            0 <= k < candidates@.len() ==> #[trigger] prepared@[k]@ == normalised(
                candidates@[k].name@,
            ),
    ensures
        r@ == hits(candidates@, tier, needle@),
{
    let ghost wanted = |c: Named| tier.accepts(normalised(c.name@), needle@);
    let mut out: Vec<Named> = Vec::new();
    let mut i: usize = 0;
    proof {
        assert(candidates@.take(0) =~= Seq::empty());
        reveal(Seq::filter);
        assert(out@ =~= candidates@.take(0).filter(wanted));
    }
    while i < candidates.len()
        invariant
            i <= candidates@.len() == prepared@.len(),
            forall|k: int|
                0 <= k < candidates@.len() ==> #[trigger] prepared@[k]@ == normalised(
                    candidates@[k].name@,
                ),
            wanted == |c: Named| tier.accepts(normalised(c.name@), needle@),
            out@ == candidates@.take(i as int).filter(wanted),
        decreases candidates@.len() - i,
    {
        proof {
            reveal(Seq::filter);
            assert(candidates@.take(i + 1).drop_last() =~= candidates@.take(i as int));
            assert(candidates@.take(i + 1).last() == candidates@[i as int]);
            assert(prepared@[i as int]@ == normalised(candidates@[i as int].name@));
        }
        if tier.matches(prepared[i].as_str(), needle) {
            out.push(candidates[i].clone());
        }
        i += 1;
    }
    assert(candidates@.take(i as int) =~= candidates@);
    out
}

/// Nearest names by edit distance. `prepared` holds the candidates' names,
/// normalised.
pub(crate) fn suggest(candidates: &[Named], prepared: &Vec<String>, needle: &str) -> (r: Vec<Named>)
    requires
        prepared@.len() == candidates@.len(),
        forall|k: int|
            0 <= k < candidates@.len() ==> #[trigger] prepared@[k]@ == normalised(
                candidates@[k].name@,
            ),
    ensures
        r@ == suggestions(candidates@, needle@),
{
    let third: usize = chars_of(needle).len() / 3;
    let allowed: usize = if third >= 2 {
        third
    } else {
        2
    };
    let ghost wanted = |c: Named| distance(normalised(c.name@), needle@) <= tolerance(needle@);
    let ghost key = |c: Named| nearness(needle@, c);
    let mut near: Vec<Named> = Vec::new();
    let mut keys: Vec<SortKey> = Vec::new();
    let mut i: usize = 0;
    proof {
        assert(candidates@.take(0) =~= Seq::empty());
        reveal(Seq::filter);
        assert(near@ =~= candidates@.take(0).filter(wanted));
        assert(ranks(keys@) =~= near@.map_values(key));
    }
    while i < candidates.len()
        invariant
            i <= candidates@.len() == prepared@.len(),
            forall|k: int|
                0 <= k < candidates@.len() ==> #[trigger] prepared@[k]@ == normalised(
                    candidates@[k].name@,
                ),
            allowed == tolerance(needle@),
            wanted == |c: Named| distance(normalised(c.name@), needle@) <= tolerance(needle@),
            key == |c: Named| nearness(needle@, c),
            near@ == candidates@.take(i as int).filter(wanted),
            ranks(keys@) == near@.map_values(key),
        decreases candidates@.len() - i,
    {
        proof {
            reveal(Seq::filter);
            assert(candidates@.take(i + 1).drop_last() =~= candidates@.take(i as int));
            assert(candidates@.take(i + 1).last() == candidates@[i as int]);
            assert(prepared@[i as int]@ == normalised(candidates@[i as int].name@));
        }
        let d: usize = edit_distance(prepared[i].as_str(), needle);
        if d <= allowed {
            let ghost before = ranks(keys@);
            let ghost c = candidates@[i as int];
            near.push(candidates[i].clone());
            keys.push(SortKey { rank: d, major: candidates[i].name.clone(), minor: String::new() });
            assert(keys@.last()@.minor =~= Seq::empty());
            assert(keys@.last()@ == nearness(needle@, c));
            assert(ranks(keys@) =~= before.push(nearness(needle@, c)));
            assert(ranks(keys@) =~= near@.map_values(key));
        }
        i += 1;
    }
    assert(candidates@.take(i as int) =~= candidates@);
    assert(near@ == nearby(candidates@, needle@));
    let order = sorted_positions(&keys);
    let ghost all = positions(order@).map_values(|p: int| near@[p]);
    let mut out: Vec<Named> = Vec::new();
    let mut taken: usize = 0;
    while taken < order.len() && taken < MAX_SUGGESTIONS
        invariant
            taken <= order@.len(),
            taken <= MAX_SUGGESTIONS,
            keys@.len() == near@.len(),
            sorts(ranks(keys@), 0, keys@.len() as int, positions(order@)),
            all == positions(order@).map_values(|p: int| near@[p]),
            out@ == all.take(taken as int),
        decreases order@.len() - taken,
    {
        assert(0 <= positions(order@)[taken as int] < near@.len());
        assert(positions(order@)[taken as int] == order@[taken as int]);
        out.push(near[order[taken]].clone());
        taken += 1;
        assert(out@ =~= all.take(taken as int));
    }
    assert(out@ =~= first_of(all, MAX_SUGGESTIONS as nat));
    assert(all =~= stable_order(near@.map_values(key)).map_values(|p: int| near@[p]));
    out
}

/// Matches a typed name against candidates.
///
/// Tiers are tried in order and the first that produces any match wins, so an
/// exact hit is never diluted by loose substring matches elsewhere.
pub fn resolve(candidates: &[Named], query: &str) -> (r: Resolution)
    ensures
        r@ == answer(candidates@, query@),
{
    let needle = normalise(query);
    if needle.as_str().is_empty() {
        let none: Vec<Named> = Vec::new();
        assert(none@ =~= Seq::empty());
        return Resolution::Nothing { suggestions: none };
    }
    let mut prepared: Vec<String> = Vec::new();
    let mut i: usize = 0;
    while i < candidates.len()
        invariant
            i <= candidates@.len(),
            prepared@.len() == i,
            forall|k: int|
                0 <= k < i ==> #[trigger] prepared@[k]@ == normalised(candidates@[k].name@),
        decreases candidates@.len() - i,
    {
        prepared.push(normalise(candidates[i].name.as_str()));
        i += 1;
    }
    let exact = hits_of(candidates, &prepared, Tier::Exact, needle.as_str());
    if exact.len() > 0 {
        return found(exact);
    }
    let prefix = hits_of(candidates, &prepared, Tier::Prefix, needle.as_str());
    if prefix.len() > 0 {
        return found(prefix);
    }
    let substring = hits_of(candidates, &prepared, Tier::Substring, needle.as_str());
    if substring.len() > 0 {
        return found(substring);
    }
    let word = hits_of(candidates, &prepared, Tier::Word, needle.as_str());
    if word.len() > 0 {
        return found(word);
    }
    Resolution::Nothing { suggestions: suggest(candidates, &prepared, needle.as_str()) }
}

/// What the matches of the winning tier amount to.
fn found(matching: Vec<Named>) -> (r: Resolution)
    requires
        matching@.len() > 0,
    ensures
        r@ == (if matching@.len() == 1 {
            Answer::One(matching@[0])
        } else {
            Answer::Ambiguous(first_of(matching@, MAX_CANDIDATES as nat))
        }),
{
    let mut matching = matching;
    if matching.len() == 1 {
        Resolution::One(matching.remove(0))
    } else {
        let ghost all = matching@;
        matching.truncate(MAX_CANDIDATES);
        assert(matching@ =~= first_of(all, MAX_CANDIDATES as nat));
        Resolution::Ambiguous(matching)
    }
}

// ----------------------------------------------------------------- laws -----
/// Whatever matches exactly starts with the needle, whatever starts with it
/// holds it, and so does whatever holds a word that starts with it.
pub proof fn tiers_widen(name: Seq<char>, needle: Seq<char>)
    ensures
        Tier::Exact.accepts(name, needle) ==> Tier::Prefix.accepts(name, needle),
        Tier::Prefix.accepts(name, needle) ==> Tier::Substring.accepts(name, needle),
        Tier::Word.accepts(name, needle) ==> Tier::Substring.accepts(name, needle),
{
    if Tier::Exact.accepts(name, needle) {
        assert(name.subrange(0, needle.len() as int) =~= needle);
    }
    if Tier::Word.accepts(name, needle) {
        let i = choose|i: int|
            0 <= i < words(name).len() && stands_at(#[trigger] words(name)[i], needle, 0);
        words_stand_in_their_text(name, i);
        let at = choose|at: int| stands_at(name, words(name)[i], at);
        let word = words(name)[i];
        assert(name.subrange(at, at + needle.len()) =~= word.subrange(0, needle.len() as int)) by {
            assert(name.subrange(at, at + word.len()) == word);
            assert forall|k: int| 0 <= k < needle.len() implies name.subrange(
                at,
                at + needle.len(),
            )[k] == word.subrange(0, needle.len() as int)[k] by {
                assert(name.subrange(at, at + word.len())[k] == word[k]);
            }
        }
        assert(stands_at(name, needle, at));
    }
}

proof fn words_stand_in_their_text(text: Seq<char>, i: int)
    requires
        0 <= i < words(text).len(),
    ensures
        contains_text(text, words(text)[i]),
    decreases text.len(),
{
    let before = text.drop_last();
    let c = text.last();
    let word = words(text)[i];
    let ends_here = !white_space(c) && i == words(text).len() - 1;
    if ends_here {
        last_word_ends_the_text(text);
        assert(stands_at(text, word, text.len() - word.len()));
    } else {
        assert(word == words(before)[i]);
        words_stand_in_their_text(before, i);
        let at = choose|at: int| stands_at(before, word, at);
        assert(text.subrange(at, at + word.len()) =~= before.subrange(at, at + word.len()));
        assert(stands_at(text, word, at));
    }
}

proof fn last_word_ends_the_text(text: Seq<char>)
    requires
        text.len() > 0,
        !white_space(text.last()),
    ensures
        words(text).len() > 0,
        stands_at(text, words(text).last(), text.len() - words(text).last().len()),
    decreases text.len(),
{
    let before = text.drop_last();
    let word = words(text).last();
    if before.len() == 0 || white_space(before.last()) {
        assert(text.subrange(text.len() - 1, text.len() as int) =~= word);
    } else {
        last_word_ends_the_text(before);
        let shorter = words(before).last();
        let at = before.len() - shorter.len();
        assert(before.subrange(at, at + shorter.len()) == shorter);
        assert forall|k: int| 0 <= k < word.len() implies text.subrange(at, text.len() as int)[k]
            == word[k] by {
            if k < shorter.len() {
                assert(before.subrange(at, at + shorter.len())[k] == shorter[k]);
            }
        }
        assert(text.subrange(at, text.len() as int) =~= word);
    }
}

/// An exact hit is never diluted: where some candidate bears the very name that
/// was typed, nothing but candidates that bear it is offered.
pub proof fn exact_hits_are_never_diluted(candidates: Seq<Named>, query: Seq<char>, k: int)
    requires
        normalised(query).len() > 0,
        0 <= k < candidates.len(),
        normalised(candidates[k].name@) == normalised(query),
    ensures
        match answer(candidates, query) {
            Answer::One(named) => normalised(named.name@) == normalised(query),
            Answer::Ambiguous(several) => forall|i: int|
                0 <= i < several.len() ==> normalised(#[trigger] several[i].name@) == normalised(
                    query,
                ),
            Answer::Nothing(_) => false,
        },
{
    broadcast use {Seq::lemma_filter_contains, Seq::lemma_filter_pred};

    let needle = normalised(query);
    let wanted = |c: Named| Tier::Exact.accepts(normalised(c.name@), needle);
    let exact = hits(candidates, Tier::Exact, needle);
    assert(wanted(candidates[k]));
    assert(candidates.filter(wanted).contains(candidates[k]));
    assert(exact.len() > 0);
    assert forall|i: int| 0 <= i < exact.len() implies normalised(#[trigger] exact[i].name@)
        == needle by {
        assert(wanted(candidates.filter(wanted)[i]));
    }
}

/// Nothing is guessed at: one match is reported only where exactly one
/// candidate matches in the winning tier and none in a stricter one.
pub proof fn one_is_never_a_guess(candidates: Seq<Named>, query: Seq<char>)
    ensures
        answer(candidates, query) matches Answer::One(named) ==> (winning_tier(
            candidates,
            normalised(query),
        ) matches Some(tier) && hits(candidates, tier, normalised(query)) == seq![named]),
        answer(candidates, query) is Ambiguous ==> (winning_tier(candidates, normalised(query))
            matches Some(tier) && hits(candidates, tier, normalised(query)).len() > 1),
        answer(candidates, query) is Nothing && normalised(query).len() > 0 ==> winning_tier(
            candidates,
            normalised(query),
        ) is None,
{
    if let Answer::One(named) = answer(candidates, query) {
        let tier = winning_tier(candidates, normalised(query))->0;
        assert(hits(candidates, tier, normalised(query)) =~= seq![named]);
    }
}

/// Whatever is offered is one of the candidates, and there is never more of it
/// than the caps allow.
pub proof fn only_candidates_are_offered(candidates: Seq<Named>, query: Seq<char>)
    ensures
        match answer(candidates, query) {
            Answer::One(named) => candidates.contains(named),
            Answer::Ambiguous(several) => 2 <= several.len() <= MAX_CANDIDATES && forall|i: int|
                0 <= i < several.len() ==> candidates.contains(#[trigger] several[i]),
            Answer::Nothing(near) => near.len() <= MAX_SUGGESTIONS && forall|i: int|
                0 <= i < near.len() ==> candidates.contains(#[trigger] near[i]),
        },
{
    broadcast use Seq::lemma_filter_contains_rev;

    let needle = normalised(query);
    match answer(candidates, query) {
        Answer::One(named) => {
            let tier = winning_tier(candidates, needle)->0;
            assert(hits(candidates, tier, needle).contains(named));
        },
        Answer::Ambiguous(several) => {
            let tier = winning_tier(candidates, needle)->0;
            let all = hits(candidates, tier, needle);
            assert forall|i: int| 0 <= i < several.len() implies candidates.contains(
                #[trigger] several[i],
            ) by {
                assert(several[i] == all[i]);
                assert(all.contains(all[i]));
            }
        },
        Answer::Nothing(near) => if needle.len() > 0 {
            let pool = nearby(candidates, needle);
            let keys = pool.map_values(|c: Named| nearness(needle, c));
            let order = stable_order(keys);
            a_stable_order_exists(keys);
            assert forall|i: int| 0 <= i < near.len() implies candidates.contains(
                #[trigger] near[i],
            ) by {
                assert(0 <= order[i] < pool.len());
                assert(near[i] == pool[order[i]]);
                assert(pool.contains(pool[order[i]]));
            }
        },
    }
}

/// Padding and doubled spaces make no difference to a name, whatever the white
/// space is.
pub proof fn spacing_makes_no_difference(
    before: Seq<char>,
    a: Seq<char>,
    gap: Seq<char>,
    b: Seq<char>,
    after: Seq<char>,
)
    requires
        is_blank(before),
        is_blank(gap),
        gap.len() > 0,
        is_blank(after),
    ensures
        normalised(before + a + after) == normalised(a),
        normalised(a + gap + b) == normalised(a + seq![' '] + b),
{
    padding_makes_no_words(before, a, after);
    gaps_make_no_words(a, gap, b);
    assert(is_blank(seq![' ']));
    gaps_make_no_words(a, seq![' '], b);
}

/// White space stands only as single spaces between other characters.
pub open spec fn is_tidy(text: Seq<char>) -> bool {
    forall|i: int|
        0 <= i < text.len() && white_space(#[trigger] text[i]) ==> text[i] == ' ' && 0 < i
            < text.len() - 1 && !white_space(text[i - 1]) && !white_space(text[i + 1])
}

/// A word whose lowercase form is a word, and stays as it is when it is lowered
/// again.
pub open spec fn lowers_well(word: Seq<char>) -> bool {
    is_word(lowercase(word)) && lowercase(lowercase(word)) == lowercase(word)
}

/// Normalising a name again changes nothing, the result is tidy, and it is empty
/// exactly where the name is blank. This rests on how the words are lowered;
/// words of ASCII characters are always lowered well.
pub proof fn normalising_settles(text: Seq<char>)
    requires
        forall|i: int| 0 <= i < words(text).len() ==> lowers_well(#[trigger] words(text)[i]),
    ensures
        normalised(normalised(text)) == normalised(text),
        is_tidy(normalised(text)),
        normalised(text).len() == 0 <==> is_blank(text),
{
    let parts = words(text).map_values(|word: Seq<char>| lowercase(word));
    assert forall|i: int| 0 <= i < parts.len() implies is_word(#[trigger] parts[i]) by {
        assert(lowers_well(words(text)[i]));
    }
    joined_words_come_apart(parts);
    let again = parts.map_values(|word: Seq<char>| lowercase(word));
    assert forall|i: int| 0 <= i < parts.len() implies again[i] == parts[i] by {
        assert(lowers_well(words(text)[i]));
    }
    assert(again =~= parts);
    joined_words_are_tidy(parts);
    blank_has_no_words(text);
}

/// Normalising an ASCII name again changes nothing, the result is tidy, and it
/// is empty exactly where the name is blank.
pub proof fn normalising_ascii_settles(text: Seq<char>)
    requires
        is_ascii_text(text),
    ensures
        normalised(normalised(text)) == normalised(text),
        is_tidy(normalised(text)),
        normalised(text).len() == 0 <==> is_blank(text),
{
    assert forall|i: int| 0 <= i < words(text).len() implies lowers_well(
        #[trigger] words(text)[i],
    ) by {
        let word = words(text)[i];
        words_are_words(text, i);
        words_stand_in_their_text(text, i);
        let at = choose|at: int| stands_at(text, word, at);
        assert forall|k: int| 0 <= k < word.len() implies #[trigger] word[k] < '\u{80}' by {
            assert(text.subrange(at, at + word.len())[k] == text[at + k]);
        }
        let low = lowercase(word);
        assert forall|k: int| 0 <= k < low.len() implies #[trigger] low[k] < '\u{80}'
            && !white_space(low[k]) && ascii_lowercase(low[k]) == low[k] by {
            assert(!white_space(word[k]));
            assert(low[k] == ascii_lowercase(word[k]));
        }
        assert(is_ascii_text(low));
        assert(lowercase(low) =~= low);
    }
    normalising_settles(text);
}

proof fn joined_words_are_tidy(parts: Seq<Seq<char>>)
    requires
        forall|i: int| 0 <= i < parts.len() ==> is_word(#[trigger] parts[i]),
    ensures
        is_tidy(joined(parts, seq![' '])),
        parts.len() > 0 ==> joined(parts, seq![' ']).len() > 0 && !white_space(
            joined(parts, seq![' ']).last(),
        ) && !white_space(joined(parts, seq![' '])[0]),
    decreases parts.len(),
{
    let space = seq![' '];
    let all = joined(parts, space);
    if parts.len() == 1 {
        assert(is_word(parts[0]));
    } else if parts.len() > 1 {
        let earlier = parts.drop_last();
        assert forall|i: int| 0 <= i < earlier.len() implies is_word(#[trigger] earlier[i]) by {
            assert(earlier[i] == parts[i]);
        }
        joined_words_are_tidy(earlier);
        let front = joined(earlier, space);
        let last = parts.last();
        assert(is_word(parts[parts.len() - 1]));
        assert(all == front + space + last);
        assert forall|i: int| 0 <= i < all.len() && white_space(#[trigger] all[i]) implies all[i]
            == ' ' && 0 < i < all.len() - 1 && !white_space(all[i - 1]) && !white_space(
            all[i + 1],
        ) by {
            if i < front.len() {
                assert(all[i] == front[i]);
                assert(white_space(front[i]));
                assert(all[i - 1] == front[i - 1]);
                assert(all[i + 1] == front[i + 1]);
            } else if i > front.len() {
                assert(all[i] == last[i - front.len() - 1]);
            } else {
                assert(all[i - 1] == front.last());
                assert(all[i + 1] == last[0]);
            }
        }
        assert(all.last() == last[last.len() - 1]);
        assert(all[0] == front[0]);
    }
}

/// Case, padding and doubled spaces make no difference: names that normalise
/// alike are answered alike.
pub proof fn typing_habits_make_no_difference(
    candidates: Seq<Named>,
    query: Seq<char>,
    other: Seq<char>,
)
    requires
        normalised(query) == normalised(other),
    ensures
        answer(candidates, query) == answer(candidates, other),
{
}

/// How closely a name matches a text, both normalised: it is the text, it
/// starts with it, it holds it anywhere, inside a word too, or none of these.
pub open spec fn closeness(name: Seq<char>, needle: Seq<char>) -> int {
    if name == needle {
        0
    } else if needle.len() <= name.len() && name.subrange(0, needle.len() as int) == needle {
        1
    } else if exists|at: int|
        0 <= at <= name.len() - needle.len() && #[trigger] name.subrange(at, at + needle.len())
            == needle {
        2
    } else {
        3
    }
}

/// A name holds the text, and none of the candidates' names matches it more
/// closely.
pub open spec fn closest(candidates: Seq<Named>, needle: Seq<char>, c: Named) -> bool {
    &&& closeness(normalised(c.name@), needle) < 3
    &&& forall|j: int|
        0 <= j < candidates.len() ==> closeness(normalised(c.name@), needle) <= closeness(
            normalised((#[trigger] candidates[j]).name@),
            needle,
        )
}

/// What a typed name is resolved to is decided by where it stands in the names.
/// Of the candidates whose names hold it, wherever that is, those that match
/// most closely are offered: as the one match where there is one, and in the
/// order they came in, ten at most, where there are several. Nothing is found
/// only where no name holds it, or where nothing was typed.
pub proof fn the_closest_names_are_offered(candidates: Seq<Named>, query: Seq<char>)
    ensures
        normalised(query).len() == 0 ==> answer(candidates, query) == Answer::Nothing(Seq::empty()),
        normalised(query).len() > 0 ==> {
            let best = candidates.filter(|c: Named| closest(candidates, normalised(query), c));
            match answer(candidates, query) {
                Answer::One(named) => best == seq![named],
                Answer::Ambiguous(several) => best.len() > 1 && several == (if best.len() <= 10 {
                    best
                } else {
                    best.take(10)
                }),
                Answer::Nothing(_) => best.len() == 0,
            }
        },
{
    let needle = normalised(query);
    if needle.len() > 0 {
        let best = candidates.filter(|c: Named| closest(candidates, needle, c));
        match winning_tier(candidates, needle) {
            Some(tier) => {
                the_winning_tier_is_the_closest(candidates, needle, tier);
                assert(hits(candidates, tier, needle) == best);
                if best.len() == 1 {
                    assert(best =~= seq![best[0]]);
                }
            },
            None => {
                assert forall|k: int| 0 <= k < candidates.len() implies closeness(
                    normalised((#[trigger] candidates[k]).name@),
                    needle,
                ) == 3 by {
                    no_hit_is_no_match(candidates, Tier::Exact, needle, k);
                    no_hit_is_no_match(candidates, Tier::Substring, needle, k);
                    tiers_are_degrees(normalised(candidates[k].name@), needle);
                }
                if best.len() > 0 {
                    chosen_ones_are_chosen(
                        candidates,
                        |c: Named| closest(candidates, needle, c),
                        0,
                    );
                    assert(closest(candidates, needle, best[0]));
                    let k = choose|k: int| 0 <= k < candidates.len() && candidates[k] == best[0];
                    assert(closeness(normalised(candidates[k].name@), needle) == 3);
                }
            },
        }
    }
}

/// A text that is typed is found in every name that holds it: where any name
/// holds it anywhere, the answer is not that nothing was found, and where
/// exactly one does, the answer is that one.
pub proof fn a_name_that_holds_the_text_is_found(
    candidates: Seq<Named>,
    query: Seq<char>,
    k: int,
    at: int,
)
    requires
        normalised(query).len() > 0,
        0 <= k < candidates.len(),
        0 <= at <= normalised(candidates[k].name@).len() - normalised(query).len(),
        normalised(candidates[k].name@).subrange(at, at + normalised(query).len()) == normalised(
            query,
        ),
    ensures
        !(answer(candidates, query) is Nothing),
        (forall|j: int, from: int|
            0 <= j < candidates.len() && j != k && 0 <= from <= normalised(
                candidates[j].name@,
            ).len() - normalised(query).len() ==> #[trigger] normalised(
                candidates[j].name@,
            ).subrange(from, from + normalised(query).len()) != normalised(query)) ==> answer(
            candidates,
            query,
        ) == Answer::One(candidates[k]),
{
    let needle = normalised(query);
    let name = normalised(candidates[k].name@);
    the_closest_names_are_offered(candidates, query);
    assert(closeness(name, needle) < 3);
    let pred = |c: Named| closest(candidates, needle, c);
    let best = candidates.filter(pred);
    some_name_is_closest(candidates, needle, k);
    let b = choose|b: int| 0 <= b < candidates.len() && closest(candidates, needle, #[trigger] candidates[b]);
    what_is_chosen_is_among_the_chosen(candidates, pred, b);
    if forall|j: int, from: int|
        0 <= j < candidates.len() && j != k && 0 <= from <= normalised(candidates[j].name@).len()
            - needle.len() ==> #[trigger] normalised(candidates[j].name@).subrange(
            from,
            from + needle.len(),
        ) != needle {
        assert forall|j: int| 0 <= j < candidates.len() && j != k implies !pred(
            #[trigger] candidates[j],
        ) by {
            let other = normalised(candidates[j].name@);
            if closeness(other, needle) == 0 {
                assert(other.subrange(0, 0int + needle.len()) =~= needle);
            } else if closeness(other, needle) == 1 {
                assert(other.subrange(0, 0int + needle.len()) == needle);
            }
        }
        assert(b == k);
        only_one_is_chosen(candidates, pred, k);
    }
}

proof fn some_name_is_closest(candidates: Seq<Named>, needle: Seq<char>, k: int)
    requires
        0 <= k < candidates.len(),
        closeness(normalised(candidates[k].name@), needle) < 3,
    ensures
        exists|b: int|
            0 <= b < candidates.len() && closest(candidates, needle, #[trigger] candidates[b]),
    decreases closeness(normalised(candidates[k].name@), needle),
{
    if !closest(candidates, needle, candidates[k]) {
        let j = choose|j: int|
            0 <= j < candidates.len() && closeness(normalised(candidates[k].name@), needle)
                > closeness(normalised((#[trigger] candidates[j]).name@), needle);
        some_name_is_closest(candidates, needle, j);
    }
}

proof fn tiers_are_degrees(name: Seq<char>, needle: Seq<char>)
    ensures
        Tier::Exact.accepts(name, needle) <==> closeness(name, needle) == 0,
        Tier::Prefix.accepts(name, needle) <==> closeness(name, needle) <= 1,
        Tier::Substring.accepts(name, needle) <==> closeness(name, needle) <= 2,
{
    tiers_widen(name, needle);
    if Tier::Substring.accepts(name, needle) {
        let at = choose|at: int| stands_at(name, needle, at);
        assert(name.subrange(at, at + needle.len()) == needle);
    }
    if closeness(name, needle) == 2 {
        let at = choose|at: int|
            0 <= at <= name.len() - needle.len() && #[trigger] name.subrange(at, at + needle.len())
                == needle;
        assert(stands_at(name, needle, at));
    }
    if closeness(name, needle) == 1 {
        assert(stands_at(name, needle, 0));
    }
}

proof fn no_hit_is_no_match(candidates: Seq<Named>, tier: Tier, needle: Seq<char>, k: int)
    requires
        hits(candidates, tier, needle).len() == 0,
        0 <= k < candidates.len(),
    ensures
        !tier.accepts(normalised(candidates[k].name@), needle),
{
    let pred = |c: Named| tier.accepts(normalised(c.name@), needle);
    if pred(candidates[k]) {
        what_is_chosen_is_among_the_chosen(candidates, pred, k);
    }
}

/// How closely the names match that a tier is for.
spec fn degree(tier: Tier) -> int {
    match tier {
        Tier::Exact => 0,
        Tier::Prefix => 1,
        _ => 2,
    }
}

proof fn the_winning_tier_is_the_closest(candidates: Seq<Named>, needle: Seq<char>, tier: Tier)
    requires
        winning_tier(candidates, needle) == Some(tier),
    ensures
        hits(candidates, tier, needle) == candidates.filter(
            |c: Named| closest(candidates, needle, c),
        ),
{
    let hit = |c: Named| tier.accepts(normalised(c.name@), needle);
    let best = |c: Named| closest(candidates, needle, c);
    let f = a_winner_has_its_degree(candidates, needle, tier);
    assert forall|k: int| 0 <= k < candidates.len() implies degree(tier) <= closeness(
        normalised((#[trigger] candidates[k]).name@),
        needle,
    ) by {
        nothing_is_closer(candidates, needle, tier, k);
    }
    assert forall|k: int| 0 <= k < candidates.len() implies hit(#[trigger] candidates[k]) == best(
        candidates[k],
    ) by {
        tiers_are_degrees(normalised(candidates[k].name@), needle);
        the_degree_decides(candidates, needle, tier, f, k);
    }
    alike_choices_choose_alike(candidates, hit, best);
}

proof fn nothing_is_closer(candidates: Seq<Named>, needle: Seq<char>, tier: Tier, k: int)
    requires
        winning_tier(candidates, needle) == Some(tier),
        0 <= k < candidates.len(),
    ensures
        degree(tier) <= closeness(normalised(candidates[k].name@), needle),
        tier is Word ==> closeness(normalised(candidates[k].name@), needle) == 3,
{
    tiers_are_degrees(normalised(candidates[k].name@), needle);
    if !(tier is Exact) {
        no_hit_is_no_match(candidates, Tier::Exact, needle, k);
    }
    if tier is Substring || tier is Word {
        no_hit_is_no_match(candidates, Tier::Prefix, needle, k);
    }
    if tier is Word {
        no_hit_is_no_match(candidates, Tier::Substring, needle, k);
    }
}

/// A candidate that the winning tier accepts.
proof fn a_winner_has_its_degree(candidates: Seq<Named>, needle: Seq<char>, tier: Tier) -> (f: int)
    requires
        winning_tier(candidates, needle) == Some(tier),
    ensures
        0 <= f < candidates.len(),
        closeness(normalised(candidates[f].name@), needle) == degree(tier),
        !(tier is Word),
{
    let hit = |c: Named| tier.accepts(normalised(c.name@), needle);
    assert(hits(candidates, tier, needle) == candidates.filter(hit));
    let first = candidates.filter(hit)[0];
    chosen_ones_are_chosen(candidates, hit, 0);
    let f = choose|f: int| 0 <= f < candidates.len() && candidates[f] == first;
    nothing_is_closer(candidates, needle, tier, f);
    tiers_are_degrees(normalised(candidates[f].name@), needle);
    tiers_widen(normalised(candidates[f].name@), needle);
    f
}

proof fn the_degree_decides(
    candidates: Seq<Named>,
    needle: Seq<char>,
    tier: Tier,
    f: int,
    k: int,
)
    requires
        0 <= f < candidates.len(),
        0 <= k < candidates.len(),
        closeness(normalised(candidates[f].name@), needle) == degree(tier),
        forall|j: int|
            0 <= j < candidates.len() ==> degree(tier) <= closeness(
                normalised((#[trigger] candidates[j]).name@),
                needle,
            ),
    ensures
        closest(candidates, needle, candidates[k]) <==> closeness(
            normalised(candidates[k].name@),
            needle,
        ) <= degree(tier),
{
    if closest(candidates, needle, candidates[k]) {
        assert(closeness(normalised(candidates[k].name@), needle) <= closeness(
            normalised(candidates[f].name@),
            needle,
        ));
    }
}

proof fn alike_choices_choose_alike(
    items: Seq<Named>,
    p: spec_fn(Named) -> bool,
    q: spec_fn(Named) -> bool,
)
    requires
        forall|k: int| 0 <= k < items.len() ==> p(#[trigger] items[k]) == q(items[k]),
    ensures
        items.filter(p) == items.filter(q),
    decreases items.len(),
{
    reveal(Seq::filter);
    if items.len() > 0 {
        assert forall|k: int| 0 <= k < items.drop_last().len() implies p(
            #[trigger] items.drop_last()[k],
        ) == q(items.drop_last()[k]) by {
            assert(items.drop_last()[k] == items[k]);
        }
        alike_choices_choose_alike(items.drop_last(), p, q);
        assert(p(items[items.len() - 1]) == q(items[items.len() - 1]));
    }
}

proof fn chosen_ones_are_chosen(items: Seq<Named>, p: spec_fn(Named) -> bool, i: int)
    requires
        0 <= i < items.filter(p).len(),
    ensures
        p(items.filter(p)[i]),
        items.contains(items.filter(p)[i]),
{
    broadcast use {Seq::lemma_filter_contains_rev, Seq::lemma_filter_pred};

    assert(items.filter(p).contains(items.filter(p)[i]));
}

proof fn what_is_chosen_is_among_the_chosen(
    items: Seq<Named>,
    p: spec_fn(Named) -> bool,
    k: int,
)
    requires
        0 <= k < items.len(),
        p(items[k]),
    ensures
        items.filter(p).contains(items[k]),
        items.filter(p).len() > 0,
{
    broadcast use Seq::lemma_filter_contains;

    assert(items.filter(p).contains(items[k]));
}

proof fn only_one_is_chosen(items: Seq<Named>, p: spec_fn(Named) -> bool, k: int)
    requires
        0 <= k < items.len(),
        p(items[k]),
        forall|j: int| 0 <= j < items.len() && j != k ==> !p(#[trigger] items[j]),
    ensures
        items.filter(p) == seq![items[k]],
    decreases items.len(),
{
    reveal(Seq::filter);
    let before = items.drop_last();
    if k == items.len() - 1 {
        assert forall|j: int| 0 <= j < before.len() implies !p(#[trigger] before[j]) by {
            assert(before[j] == items[j]);
        }
        none_is_chosen(before, p);
        assert(items.filter(p) =~= seq![items[k]]);
    } else {
        assert forall|j: int| 0 <= j < before.len() && j != k implies !p(#[trigger] before[j]) by {
            assert(before[j] == items[j]);
        }
        assert(before[k] == items[k]);
        only_one_is_chosen(before, p, k);
        assert(!p(items[items.len() - 1]));
    }
}

proof fn none_is_chosen(items: Seq<Named>, p: spec_fn(Named) -> bool)
    requires
        forall|j: int| 0 <= j < items.len() ==> !p(#[trigger] items[j]),
    ensures
        items.filter(p).len() == 0,
    decreases items.len(),
{
    reveal(Seq::filter);
    if items.len() > 0 {
        assert forall|j: int| 0 <= j < items.drop_last().len() implies !p(
            #[trigger] items.drop_last()[j],
        ) by {
            assert(items.drop_last()[j] == items[j]);
        }
        none_is_chosen(items.drop_last(), p);
        assert(!p(items[items.len() - 1]));
    }
}

/// How many edits a name is away from what was typed.
pub open spec fn away(c: Named, query: Seq<char>) -> nat {
    distance(normalised(c.name@), normalised(query))
}

/// A name is near enough to be suggested: two edits away at most, or a third of
/// the length of what was typed.
pub open spec fn near_enough(c: Named, query: Seq<char>) -> bool {
    away(c, query) <= 2 || away(c, query) * 3 <= normalised(query).len()
}

/// Where nothing is found, the nearest names are suggested, nearest first and by
/// name among the equally near: five at most, and none that is near enough is
/// left out for one that is farther away.
pub proof fn the_nearest_names_are_suggested(candidates: Seq<Named>, query: Seq<char>)
    requires
        normalised(query).len() > 0,
    ensures
        answer(candidates, query) matches Answer::Nothing(near) ==> {
            &&& near.len() <= 5
            &&& forall|i: int|
                0 <= i < near.len() ==> candidates.contains(#[trigger] near[i]) && near_enough(
                    near[i],
                    query,
                )
            &&& forall|i: int, j: int|
                0 <= i < j < near.len() ==> away(#[trigger] near[i], query) < away(
                    #[trigger] near[j],
                    query,
                ) || (away(near[i], query) == away(near[j], query) && !text_less(
                    near[j].name@,
                    near[i].name@,
                ))
            &&& forall|k: int|
                0 <= k < candidates.len() && near_enough(#[trigger] candidates[k], query)
                    ==> near.contains(candidates[k]) || (near.len() == 5 && forall|i: int|
                    0 <= i < near.len() ==> away(#[trigger] near[i], query) <= away(
                        candidates[k],
                        query,
                    ))
        },
{
    if let Answer::Nothing(near) = answer(candidates, query) {
        let needle = normalised(query);
        let pred = |c: Named| distance(normalised(c.name@), needle) <= tolerance(needle);
        let pool = nearby(candidates, needle);
        let keys = pool.map_values(|c: Named| nearness(needle, c));
        let order = stable_order(keys);
        a_stable_order_exists(keys);
        let all = order.map_values(|i: int| pool[i]);
        assert(near == first_of(all, 5));
        assert forall|c: Named| near_enough(c, query) <==> #[trigger] pred(c) by {
            let d = away(c, query);
            let n = needle.len();
            assert(d * 3 <= n <==> d <= n / 3);
        }
        assert forall|i: int| 0 <= i < near.len() implies candidates.contains(#[trigger] near[i])
            && near_enough(near[i], query) by {
            assert(near[i] == pool[order[i]]);
            chosen_ones_are_chosen(candidates, pred, order[i]);
            assert(pred(near[i]));
        }
        assert forall|i: int, j: int| 0 <= i < j < all.len() implies away(#[trigger] all[i], query)
            < away(#[trigger] all[j], query) || (away(all[i], query) == away(all[j], query)
            && !text_less(all[j].name@, all[i].name@)) by {
            assert(crate::ordering::precedes(keys, order[i], order[j]));
            text_order_is_total(all[i].name@, all[j].name@);
        }
        assert forall|i: int, j: int| 0 <= i < j < near.len() implies away(
            #[trigger] near[i],
            query,
        ) < away(#[trigger] near[j], query) || (away(near[i], query) == away(near[j], query)
            && !text_less(near[j].name@, near[i].name@)) by {
            assert(near[i] == all[i] && near[j] == all[j]);
        }
        assert forall|k: int|
            0 <= k < candidates.len() && near_enough(#[trigger] candidates[k], query) implies (
        near.contains(candidates[k]) || (near.len() == 5 && forall|i: int|
            0 <= i < near.len() ==> away(#[trigger] near[i], query) <= away(
                candidates[k],
                query,
            ))) by {
            assert(pred(candidates[k]));
            what_is_chosen_is_among_the_chosen(candidates, pred, k);
            let p = choose|p: int| 0 <= p < pool.len() && pool[p] == candidates[k];
            assert(order.contains(p));
            let q = choose|q: int| 0 <= q < order.len() && order[q] == p;
            assert(all[q] == candidates[k]);
            if q < near.len() {
                assert(near[q] == candidates[k]);
            } else {
                assert forall|i: int| 0 <= i < near.len() implies away(#[trigger] near[i], query)
                    <= away(candidates[k], query) by {
                    assert(near[i] == all[i]);
                    assert(i < q);
                }
            }
        }
    }
}

// --------------------------------------------------------------- loaders -----
/// The statement that lists the live accounts.
pub const ACCOUNTS: &'static str = "SELECT id, name FROM accounts WHERE tombstone = 0 ORDER BY name";

/// The statement that lists the live categories. `v_categories` does *not*
/// filter tombstones the way `v_transactions` does, so the predicate is ours to
/// write.
pub const CATEGORIES: &'static str = "SELECT id, name FROM v_categories WHERE tombstone = 0 ORDER BY name";

/// The statement that lists the live payees.
pub const PAYEES: &'static str = "SELECT id, name FROM v_payees WHERE tombstone = 0 ORDER BY name";

/// What a row with an id and a name stands for.
pub open spec fn entry(row: Seq<Cell>) -> Result<Entry, nat> {
    match text_in(row, 0) {
        None => Err(0),
        Some(id) => match text_in(row, 1) {
            None => Err(1),
            Some(name) => Ok(Entry { id, name }),
        },
    }
}

/// What a list of ids and names stands for.
pub open spec fn entries(rows: Seq<Seq<Cell>>) -> Result<Seq<Entry>, nat> {
    decoded(rows, |row: Seq<Cell>| entry(row))
}

fn read_named(row: &Vec<SqlCell>) -> (r: Result<Named, QueryError>)
    ensures
        agrees(r, entry(cells(row@))),
{
    match get_text(row, 0) {
        Err(e) => Err(e),
        Ok(id) => match get_text(row, 1) {
            Err(e) => Err(e),
            Ok(name) => Ok(Named { id, name }),
        },
    }
}

/// Reads ids and names out of the rows of an answer.
pub fn read_names(rows: &Vec<Vec<SqlCell>>) -> (r: Result<Vec<Named>, QueryError>)
    ensures
        agree(r, entries(table(rows@))),
{
    decode_rows(rows, read_named, Ghost(|row: Seq<Cell>| entry(row)))
}

/// The result is what the database answers to a question for names.
pub open spec fn names_found(
    conn: &Connection,
    sql: Seq<char>,
    r: Result<Vec<Named>, QueryError>,
) -> bool {
    match r {
        Err(QueryError::Sqlite(e)) => refused(conn, sql, Seq::empty(), e),
        _ => exists|rows: Seq<Seq<Cell>>| #[trigger]
            answered(conn, sql, Seq::empty(), rows) && agree(r, entries(rows)),
    }
}

/// Live accounts. Closed ones are among them: resolving a name is not the same
/// as choosing to report on it, and the caller's `TxScope` decides that.
pub fn accounts(conn: &Connection) -> (r: Result<Vec<Named>, QueryError>)
    ensures
        names_found(conn, ACCOUNTS@, r),
{
    load(conn, ACCOUNTS)
}

/// Live categories, hidden ones among them for the same reason.
pub fn categories(conn: &Connection) -> (r: Result<Vec<Named>, QueryError>)
    ensures
        names_found(conn, CATEGORIES@, r),
{
    load(conn, CATEGORIES)
}

/// Live payees. `v_payees` renames transfer payees to their account, which is
/// what a person would call them.
pub fn payees(conn: &Connection) -> (r: Result<Vec<Named>, QueryError>)
    ensures
        names_found(conn, PAYEES@, r),
{
    load(conn, PAYEES)
}

fn load(conn: &Connection, sql: &str) -> (r: Result<Vec<Named>, QueryError>)
    requires
        sql@ == ACCOUNTS@ || sql@ == CATEGORIES@ || sql@ == PAYEES@,
    ensures
        names_found(conn, sql@, r),
{
    let params: Vec<SqlValue> = Vec::new();
    assert(cells(params@) =~= Seq::empty());
    match query(conn, sql, &params, 2) {
        Err(e) => Err(QueryError::Sqlite(e)),
        Ok(rows) => read_names(&rows),
    }
}

/// Nothing of a name is lost in normalising but its spacing and its case: a word
/// of ASCII characters keeps every one of them, as its small letter where it is a
/// capital, and words keep their order, one space apart.
pub proof fn normalising_keeps_every_character(
    word: Seq<char>,
    gap: Seq<char>,
    rest: Seq<char>,
)
    requires
        is_word(word),
        is_ascii_text(word),
        is_blank(gap),
        gap.len() > 0,
        !is_blank(rest),
    ensures
        normalised(word) == word.map_values(|c: char| folded(c)),
        normalised(word + gap + rest) == word.map_values(|c: char| folded(c)) + seq![' ']
            + normalised(rest),
{
    let low = |w: Seq<char>| lowercase(w);
    let small = word.map_values(|c: char| folded(c));
    assert(lowercase(word) =~= small) by {
        assert forall|i: int| 0 <= i < word.len() implies #[trigger] lowercase(word)[i]
            == small[i] by {
            assert(word[i] < '\u{80}');
        }
    }
    a_word_is_its_own(word);
    assert(words(word).map_values(low) =~= seq![small]);
    let front = word + gap;
    assert(white_space(gap[gap.len() - 1]));
    assert(front.last() == gap[gap.len() - 1]);
    assert(white_space(gap[0]));
    words_of_both(word, gap);
    blank_has_no_words(gap);
    assert(words(front) =~= seq![word]);
    words_of_both(front, rest);
    blank_has_no_words(rest);
    let tail = words(rest).map_values(low);
    assert(words(front + rest).map_values(low) =~= seq![small] + tail);
    joining_starts_with_the_first(small, tail, seq![' ']);
}

/// What is said of a name that is not clear names what was typed and every
/// candidate, so that the next call can do better.
pub proof fn an_unclear_answer_tells_its_candidates(
    found: Answer,
    kind: Seq<char>,
    query: Seq<char>,
    i: int,
)
    requires
        !(found is One),
    ensures
        contains_text(sentence(found, kind, query), quoted(query)),
        contains_text(sentence(found, kind, query), kind),
        found matches Answer::Ambiguous(several) ==> (0 <= i < several.len() ==> contains_text(
            sentence(found, kind, query),
            quoted(several[i].name@),
        )),
        found matches Answer::Nothing(near) ==> (0 <= i < near.len() ==> contains_text(
            sentence(found, kind, query),
            quoted(near[i].name@),
        )),
{
    let nothing = Seq::<char>::empty();
    let whole = sentence(found, kind, query);
    match found {
        Answer::One(_) => {},
        Answer::Ambiguous(several) => {
            let names = joined(quoted_names(several), ", "@);
            let end = ". Call again with one of these exact names."@;
            let behind = " matches several "@ + kind + "s: "@ + names + end;
            assert(whole =~= nothing + quoted(query) + behind);
            a_part_is_contained(nothing, quoted(query), behind);
            let before = quoted(query) + " matches several "@;
            assert(whole =~= before + kind + ("s: "@ + names + end));
            a_part_is_contained(before, kind, "s: "@ + names + end);
            if 0 <= i < several.len() {
                parts_are_contained(quoted_names(several), ", "@, i);
                let (a, b) = choose|a: Seq<char>, b: Seq<char>|
                    names == #[trigger] (a + quoted_names(several)[i] + b);
                let start = quoted(query) + " matches several "@ + kind + "s: "@ + a;
                assert(whole =~= start + quoted(several[i].name@) + (b + end));
                a_part_is_contained(start, quoted(several[i].name@), b + end);
            }
        },
        Answer::Nothing(near) => {
            let names = joined(quoted_names(near), ", "@);
            let end = if near.len() == 0 {
                "."@
            } else {
                ". Did you mean: "@ + names + "?"@
            };
            let before = "No "@ + kind + " matches "@;
            assert(whole =~= before + quoted(query) + end);
            a_part_is_contained(before, quoted(query), end);
            assert(whole =~= "No "@ + kind + (" matches "@ + quoted(query) + end));
            a_part_is_contained("No "@, kind, " matches "@ + quoted(query) + end);
            if 0 <= i < near.len() {
                parts_are_contained(quoted_names(near), ", "@, i);
                let (a, b) = choose|a: Seq<char>, b: Seq<char>|
                    names == #[trigger] (a + quoted_names(near)[i] + b);
                let start = before + quoted(query) + ". Did you mean: "@ + a;
                assert(whole =~= start + quoted(near[i].name@) + (b + "?"@));
                a_part_is_contained(start, quoted(near[i].name@), b + "?"@);
            }
        },
    }
}

/// What a name is resolved to, as it is handed on: the one candidate that matches
/// most closely, or those that do, ten at most, or five suggestions at most.
pub proof fn resolving_hands_on_the_closest(
    candidates: &[Named],
    query: &str,
    r: Resolution,
    one: Option<Named>,
)
    requires
        call_ensures(resolve, (candidates, query), r),
        call_ensures(Resolution::one, (r,), one),
    ensures
        one is Some <==> r is One,
        r matches Resolution::One(named) ==> one == Some(named) && candidates@.filter(
            |c: Named| closest(candidates@, normalised(query@), c),
        ) == seq![named],
        r matches Resolution::Ambiguous(several) ==> 1 < several@.len() <= 10,
        r matches Resolution::Nothing { suggestions } ==> suggestions@.len() <= 5,
        is_blank(query@) ==> r is Nothing,
{
    the_closest_names_are_offered(candidates@, query@);
    blank_has_no_words(query@);
    if is_blank(query@) {
        assert(words(query@) =~= Seq::empty());
        assert(normalised(query@) =~= Seq::empty());
    }
    if normalised(query@).len() > 0 {
        the_nearest_names_are_suggested(candidates@, query@);
    }
}

} // verus!

//! Bang redirects: a `!tag` token in a query routes it to an outside site.
use vstd::prelude::*;

verus! {

/// The character that starts a bang token.
pub const BANG_PREFIX: char = '!';

/// One term of a parsed query.
#[derive(Clone, Debug, PartialEq, Eq)]
pub enum Term {
    /// An ordinary word.
    Word(String),
    /// A token that started with `!`; holds the tag without the prefix.
    PossibleBang(String),
}

/// How a term is written in a query.
pub open spec fn surface_of(t: Term) -> Seq<char> {
    match t {
        Term::Word(w) => w@,
        Term::PossibleBang(tag) => seq![BANG_PREFIX] + tag@,
    }
}

impl Term {
    /// The term as written in the query: a bang keeps its leading `!`.
    pub fn surface(&self) -> (r: String)
        ensures
            r@ == surface_of(*self),
    {
        match self {
            Term::Word(w) => w.clone(),
            Term::PossibleBang(tag) => {
                let mut s = String::from_str("!");
                proof {
                    reveal_strlit("!");
                }
                s.append(tag.as_str());
                s
            },
        }
    }
}

/// Splitting state after reading `s`: the finished words and the word being read.
pub open spec fn split_state(s: Seq<char>) -> (Seq<Seq<char>>, Seq<char>)
    decreases s.len(),
{
    if s.len() == 0 {
        (Seq::empty(), Seq::empty())
    } else {
        let (done, cur) = split_state(s.drop_last());
        if s.last() == ' ' {
            if cur.len() == 0 {
                (done, cur)
            } else {
                (done.push(cur), Seq::empty())
            }
        } else {
            (done, cur.push(s.last()))
        }
    }
}

/// The maximal runs of characters other than a space, in order.
pub open spec fn words_of(s: Seq<char>) -> Seq<Seq<char>> {
    let (done, cur) = split_state(s);
    if cur.len() == 0 {
        done
    } else {
        done.push(cur)
    }
}

/// `t` is the term that the word `w` reads as: a bang when it is `!`
/// followed by at least one character, else a plain word.
pub open spec fn reads_as(t: Term, w: Seq<char>) -> bool {
    if w.len() > 1 && w[0] == BANG_PREFIX {
        t is PossibleBang && t->PossibleBang_0@ == w.subrange(1, w.len() as int)
    } else {
        t is Word && t->Word_0@ == w
    }
}

/// The term that one word of a query reads as.
fn read_term(w: &str) -> (t: Term)
    ensures
        reads_as(t, w@),
{
    let n = w.unicode_len();
    if n > 1 && w.get_char(0) == BANG_PREFIX {
        Term::PossibleBang(String::from_str(w.substring_char(1, n)))
    } else {
        Term::Word(String::from_str(w))
    }
}

/// Reads a query as its space-separated words; a word that starts with `!`
/// and has more after it is a possible bang.
pub fn parse(query: &str) -> (r: Vec<Term>)
    ensures
        r@.len() == words_of(query@).len(),
        forall|i: int| 0 <= i < r@.len() ==> reads_as(#[trigger] r@[i], words_of(query@)[i]),
{
    let n = query.unicode_len();
    let mut terms: Vec<Term> = Vec::new();
    let ghost mut done: Seq<Seq<char>> = Seq::empty();
    let mut start: usize = 0;
    let mut i: usize = 0;
    while i < n
        invariant
            n == query@.len(),
            start <= i <= n,
            split_state(query@.take(i as int)) == (done, query@.subrange(start as int, i as int)),
            terms@.len() == done.len(),
            forall|k: int| 0 <= k < terms@.len() ==> reads_as(#[trigger] terms@[k], done[k]),
        decreases n - i,
    {
        assert(query@.take(i + 1).drop_last() =~= query@.take(i as int));
        assert(query@.take(i + 1).last() == query@[i as int]);
        let c = query.get_char(i);
        if c == ' ' {
            if start < i {
                let word = query.substring_char(start, i);
                terms.push(read_term(word));
                proof {
                    done = done.push(query@.subrange(start as int, i as int));
                }
            }
            start = i + 1;
            assert(query@.subrange(start as int, i + 1) =~= Seq::<char>::empty());
        } else {
            assert(query@.subrange(start as int, i + 1) =~= query@.subrange(start as int, i as int).push(c));
        }
        i = i + 1;
    }
    assert(query@.take(n as int) =~= query@);
    if start < n {
        let word = query.substring_char(start, n);
        terms.push(read_term(word));
        proof {
            done = done.push(query@.subrange(start as int, n as int));
        }
    }
    terms
}

/// The placeholder in a URL template that the query replaces.
pub const PLACEHOLDER: &'static str = "{{{s}}}";

/// The characters of `PLACEHOLDER`.
pub open spec fn placeholder() -> Seq<char> {
    seq!['{', '{', '{', 's', '}', '}', '}']
}

/// A redirect target, as loaded from a bang table.
#[derive(Clone, Debug, PartialEq, Eq)]
pub struct Bang {
    pub category: Option<String>,
    pub sub_category: Option<String>,
    pub domain: Option<String>,
    pub ranking: Option<usize>,
    pub site: Option<String>,
    pub tag: String,
    pub url: String,
}

/// A bang found in a query and the URL it sends the query to.
#[derive(Clone, Debug, PartialEq, Eq)]
pub struct BangHit {
    pub bang: Bang,
    pub redirect_to: String,
}

/// The bang table: each tag maps to the last record loaded with that tag.
///
/// The records are kept in load order and looked up from the end, which
/// gives the same last-wins mapping as a map keyed by tag. vstd proves
/// lookups in a std map only for keys with a proved hash and equality,
/// which `String` lacks, while this scan is proved against `last_with_tag`.
pub struct Bangs {
    bangs: Vec<Bang>,
}

/// The last record of `records` whose tag is `tag`.
pub open spec fn last_with_tag(records: Seq<Bang>, tag: Seq<char>) -> Option<Bang>
    decreases records.len(),
{
    if records.len() == 0 {
        None
    } else if records.last().tag@ == tag {
        Some(records.last())
    } else {
        last_with_tag(records.drop_last(), tag)
    }
}

/// `s` with every non-overlapping occurrence of `pat`, taken from left to
/// right, replaced by `rep`.
pub open spec fn replace_all(s: Seq<char>, pat: Seq<char>, rep: Seq<char>) -> Seq<char>
    decreases s.len(),
{
    if pat.len() == 0 || s.len() < pat.len() {
        s
    } else if s.subrange(0, pat.len() as int) == pat {
        rep + replace_all(s.subrange(pat.len() as int, s.len() as int), pat, rep)
    } else {
        seq![s[0]] + replace_all(s.subrange(1, s.len() as int), pat, rep)
    }
}

/// The parts joined with one space between neighbours.
pub open spec fn join_spaced(parts: Seq<Seq<char>>) -> Seq<char>
    decreases parts.len(),
{
    if parts.len() == 0 {
        Seq::empty()
    } else if parts.len() == 1 {
        parts[0]
    } else {
        join_spaced(parts.drop_last()) + seq![' '] + parts.last()
    }
}

/// The surface forms of the terms, in order, leaving out the term at `skip`.
pub open spec fn surfaces_except(terms: Seq<Term>, skip: int) -> Seq<Seq<char>>
    decreases terms.len(),
{
    if terms.len() == 0 {
        Seq::empty()
    } else {
        let rest = surfaces_except(terms.drop_last(), skip);
        if terms.len() - 1 == skip {
            rest
        } else {
            rest.push(surface_of(terms.last()))
        }
    }
}

/// The views of a sequence of strings.
pub open spec fn views(v: Seq<String>) -> Seq<Seq<char>> {
    v.map_values(|s: String| s@)
}

/// Relies on itertools::intersperse, which yields the items with the
/// separator between each two neighbours; collecting concatenates them.
#[verifier::external_body]
pub(crate) fn join_with_spaces(parts: &Vec<String>) -> (r: String)
    ensures
        r@ == join_spaced(views(parts@)),
{
    itertools::intersperse(parts.iter().map(|p| p.as_str()), " ").collect()
}

/// Relies on str::replace: every match of the pattern, found left to right
/// without overlap, is replaced.
#[verifier::external_body]
fn replace_str(s: &str, pat: &str, with: &str) -> (r: String)
    requires
        pat@.len() > 0,
    ensures
        r@ == replace_all(s@, pat@, with@),
{
    s.replace(pat, with)
}

fn clone_opt(o: &Option<String>) -> (r: Option<String>)
    ensures
        r == *o,
{
    match o {
        Some(s) => Some(s.clone()),
        None => None,
    }
}

impl Bang {
    /// A copy of the record, field for field.
    pub fn duplicate(&self) -> (r: Bang)
        ensures
            r == *self,
    {
        Bang {
            category: clone_opt(&self.category),
            sub_category: clone_opt(&self.sub_category),
            domain: clone_opt(&self.domain),
            ranking: self.ranking,
            site: clone_opt(&self.site),
            tag: self.tag.clone(),
            url: self.url.clone(),
        }
    }
}

impl Bangs {
    /// The record that `tag` maps to.
    pub closed spec fn lookup(&self, tag: Seq<char>) -> Option<Bang> {
        last_with_tag(self.bangs@, tag)
    }

    /// The index of the first bang of `terms`, from `i` on, whose tag is in
    /// the table.
    pub open spec fn first_known_from(&self, terms: Seq<Term>, i: int) -> Option<int>
        decreases terms.len() - i,
    {
        if i < 0 || i >= terms.len() {
            None
        } else {
            match terms[i] {
                Term::PossibleBang(t) if self.lookup(t@) is Some => Some(i),
                _ => self.first_known_from(terms, i + 1),
            }
        }
    }

    /// The index of the first bang of `terms` whose tag is in the table.
    pub open spec fn first_known(&self, terms: Seq<Term>) -> Option<int> {
        self.first_known_from(terms, 0)
    }

    /// Builds the table from records in load order; where tags repeat, the
    /// last record wins.
    pub fn from_bangs(records: Vec<Bang>) -> (r: Bangs)
        ensures
            forall|tag: Seq<char>| #[trigger] r.lookup(tag) == last_with_tag(records@, tag),
    {
        Bangs { bangs: records }
    }

    /// The record that `tag` maps to, if any.
    pub fn find(&self, tag: &String) -> (r: Option<&Bang>)
        ensures
            match r {
                Some(b) => self.lookup(tag@) == Some(*b),
                None => self.lookup(tag@) is None,
            },
    {
        let mut i: usize = self.bangs.len();
        assert(self.bangs@.take(i as int) =~= self.bangs@);
        while i > 0
            invariant
                i <= self.bangs@.len(),
                last_with_tag(self.bangs@, tag@) == last_with_tag(self.bangs@.take(i as int), tag@),
            decreases i,
        {
            let b = &self.bangs[i - 1];
            assert(self.bangs@.take(i as int).drop_last() =~= self.bangs@.take(i - 1));
            if b.tag == *tag {
                return Some(b);
            }
            i = i - 1;
        }
        None
    }

    /// Finds the first bang of `terms` whose tag is in the table and builds
    /// its redirect: the other terms, as written and joined by single
    /// spaces, replace every placeholder of the record's URL template. Only
    /// the chosen bang term is left out of the joined text.
    pub fn get(&self, terms: &[Term]) -> (r: Option<BangHit>)
        ensures
            match self.first_known(terms@) {
                None => r is None,
                Some(k) => terms@[k] is PossibleBang && (r matches Some(hit) && Some(hit.bang)
                    == self.lookup(terms@[k]->PossibleBang_0@) && hit.redirect_to@ == replace_all(
                    hit.bang.url@,
                    placeholder(),
                    join_spaced(surfaces_except(terms@, k)),
                )),
            },
    {
        let mut i: usize = 0;
        while i < terms.len()
            invariant
                i <= terms@.len(),
                self.first_known(terms@) == self.first_known_from(terms@, i as int),
            decreases terms@.len() - i,
        {
            if let Term::PossibleBang(tag) = &terms[i] {
                if let Some(bang) = self.find(tag) {
                    let joined = surfaces_without(terms, i);
                    let pat = PLACEHOLDER;
                    proof {
                        reveal_strlit("{{{s}}}");
                        assert(pat@ =~= placeholder());
                    }
                    let redirect_to = replace_str(bang.url.as_str(), pat, joined.as_str());
                    return Some(BangHit { bang: bang.duplicate(), redirect_to });
                }
            }
            i = i + 1;
        }
        None
    }
}

/// The terms other than the one at `skip`, as written, joined by single spaces.
fn surfaces_without(terms: &[Term], skip: usize) -> (r: String)
    ensures
        r@ == join_spaced(surfaces_except(terms@, skip as int)),
{
    let mut kept: Vec<String> = Vec::new();
    let mut i: usize = 0;
    while i < terms.len()
        invariant
            i <= terms@.len(),
            views(kept@) == surfaces_except(terms@.take(i as int), skip as int),
        decreases terms@.len() - i,
    {
        assert(terms@.take(i + 1).drop_last() =~= terms@.take(i as int));
        if i != skip {
            kept.push(terms[i].surface());
        }
        assert(views(kept@) =~= surfaces_except(terms@.take(i + 1), skip as int));
        i = i + 1;
    }
    assert(terms@.take(i as int) =~= terms@);
    join_with_spaces(&kept)
}

/// From `i` on, a query none of whose terms is a bang with a tag in the
/// table has no known bang.
proof fn lemma_no_known_from(bangs: Bangs, terms: Seq<Term>, i: int)
    requires
        0 <= i,
        forall|j: int|
            0 <= j < terms.len() ==> match #[trigger] terms[j] {
                Term::PossibleBang(t) => bangs.lookup(t@) is None,
                Term::Word(_) => true,
            },
    ensures
        bangs.first_known_from(terms, i) is None,
    decreases terms.len() - i,
{
    if i < terms.len() {
        assert(match terms[i] {
            Term::PossibleBang(t) => bangs.lookup(t@) is None,
            Term::Word(_) => true,
        });
        lemma_no_known_from(bangs, terms, i + 1);
    }
}

/// A query none of whose terms is a bang with a tag in the table has no
/// known bang, so `get` finds no redirect for it.
pub proof fn law_no_known_bang_no_hit(bangs: Bangs, terms: Seq<Term>)
    requires
        forall|i: int|
            0 <= i < terms.len() ==> match #[trigger] terms[i] {
                Term::PossibleBang(t) => bangs.lookup(t@) is None,
                Term::Word(_) => true,
            },
    ensures
        bangs.first_known(terms) is None,
{
    lemma_no_known_from(bangs, terms, 0);
}

} // verus!

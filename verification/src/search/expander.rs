//! Query expansion with code-related synonyms.
//!
//! Each token contributes the synonyms listed under it, and, when it is longer
//! than four bytes, the synonyms of every term that is a prefix of it or that
//! it is a prefix of. The result is sorted and free of duplicates.

use vstd::prelude::*;
use crate::order::{insert_sorted, strictly_sorted, views};
use crate::strmap::{
    lemma_lookup_map, lemma_lookup_update, lemma_update_map, lookup, map_entries, update, StrMap,
};
use crate::text::{starts_with_seq, str_starts_with, string_list1, string_list2, string_list3};

verus! {

/// A synonym table: each term with its related terms.
pub type SynonymTable = Seq<(Seq<char>, Seq<Seq<char>>)>;

/// A list of strings by its characters.
pub open spec fn string_list_view() -> spec_fn(Vec<String>) -> Seq<Seq<char>> {
    |v: Vec<String>| views(v@)
}

/// The table that a map of string lists stands for.
pub open spec fn table_of(es: Seq<(Seq<char>, Vec<String>)>) -> SynonymTable {
    map_entries(es, string_list_view())
}

/// Length of a string in UTF-8 bytes, as `str::len` reports it.
pub open spec fn byte_len(s: Seq<char>) -> usize {
    vstd::utf8::encode_utf8(s).len() as usize
}

/// A term matches a token by prefix: the token is longer than four bytes and
/// one of the two starts with the other.
pub open spec fn prefix_related(token: Seq<char>, key: Seq<char>) -> bool {
    byte_len(token) > 4 && (starts_with_seq(token, key) || starts_with_seq(key, token))
}

/// The synonyms listed under the token itself.
pub open spec fn exact_synonyms(table: SynonymTable, token: Seq<char>) -> Set<Seq<char>> {
    match lookup(table, token) {
        Some(syns) => syns.to_set(),
        None => Set::empty(),
    }
}

/// The synonyms of the first `n` terms that match the token by prefix.
pub open spec fn prefix_synonyms(table: SynonymTable, token: Seq<char>, n: int) -> Set<
    Seq<char>,
> {
    Set::new(
        |s: Seq<char>|
            exists|j: int|
                0 <= j < n && prefix_related(token, #[trigger] table[j].0) && table[j].1.contains(
                    s,
                ),
    )
}

/// Everything one token expands to.
pub open spec fn token_synonyms(table: SynonymTable, token: Seq<char>) -> Set<Seq<char>> {
    exact_synonyms(table, token).union(prefix_synonyms(table, token, table.len() as int))
}

/// Everything a list of tokens expands to.
pub open spec fn expansion(table: SynonymTable, tokens: Seq<Seq<char>>) -> Set<Seq<char>> {
    Set::new(
        |s: Seq<char>|
            exists|k: int| 0 <= k < tokens.len() && token_synonyms(table, #[trigger] tokens[k]).contains(s),
    )
}

/// Law: a token longer than four bytes expands to every synonym listed under
/// any table term that starts with the token, or that the token starts with.
pub proof fn lemma_expansion_covers_prefixes(
    table: SynonymTable,
    tokens: Seq<Seq<char>>,
    k: int,
    j: int,
    s: Seq<char>,
)
    requires
        0 <= k < tokens.len(),
        0 <= j < table.len(),
        table[j].1.contains(s),
        byte_len(tokens[k]) > 4,
        (tokens[k].len() <= table[j].0.len() && table[j].0.subrange(0, tokens[k].len() as int)
            == tokens[k]) || (table[j].0.len() <= tokens[k].len() && tokens[k].subrange(
            0,
            table[j].0.len() as int,
        ) == table[j].0),
    ensures
        expansion(table, tokens).contains(s),
{
    let t = tokens[k];
    let key = table[j].0;
    assert(prefix_related(t, key));
    assert(prefix_synonyms(table, t, table.len() as int).contains(s));
    assert(token_synonyms(table, tokens[k]).contains(s));
}

/// Law: every token expands to the synonyms listed under itself.
pub proof fn lemma_expansion_covers_exact(
    table: SynonymTable,
    tokens: Seq<Seq<char>>,
    k: int,
    s: Seq<char>,
)
    requires
        0 <= k < tokens.len(),
        lookup(table, tokens[k]) matches Some(syns) && syns.contains(s),
    ensures
        expansion(table, tokens).contains(s),
{
    assert(exact_synonyms(table, tokens[k]).contains(s));
    assert(token_synonyms(table, tokens[k]).contains(s));
}

/// Law: a token of at most four bytes expands to exactly the synonyms listed
/// under itself, and to nothing when it has none; and whatever a token
/// expands to is listed under the token itself or, for a token longer than
/// four bytes, under a term that starts with it or that it starts with.
pub proof fn lemma_expansion_sources(table: SynonymTable, t: Seq<char>)
    ensures
        byte_len(t) <= 4 ==> expansion(table, seq![t]) == match lookup(table, t) {
            Some(syns) => syns.to_set(),
            None => Set::<Seq<char>>::empty(),
        },
        forall|s: Seq<char>|
            #[trigger] expansion(table, seq![t]).contains(s) ==> (lookup(table, t) matches Some(
                syns,
            ) && syns.contains(s)) || exists|j: int|
                0 <= j < table.len() && byte_len(t) > 4 && table[j].1.contains(s) && ((t.len()
                    <= table[j].0.len() && table[j].0.subrange(0, t.len() as int) == t) || (
                table[j].0.len() <= t.len() && t.subrange(0, table[j].0.len() as int)
                    == table[j].0)),
{
    let one = seq![t];
    assert forall|s: Seq<char>| #[trigger] expansion(table, one).contains(s) implies token_synonyms(
        table,
        t,
    ).contains(s) by {
        let k = choose|k: int| 0 <= k < one.len() && token_synonyms(table, #[trigger] one[k]).contains(s);
        assert(k == 0);
    }
    assert forall|s: Seq<char>| token_synonyms(table, t).contains(s) implies #[trigger] expansion(
        table,
        one,
    ).contains(s) by {
        assert(one[0] == t);
    }
    if byte_len(t) <= 4 {
        assert(prefix_synonyms(table, t, table.len() as int) =~= Set::<Seq<char>>::empty());
        assert(expansion(table, one) =~= exact_synonyms(table, t));
    }
}

/// The default table, built term by term.
pub open spec fn default_synonym_table() -> SynonymTable {
    let t = Seq::empty();
    let t = update(t, "function"@, seq!["fn"@, "func"@, "method"@]);
    let t = update(t, "fn"@, seq!["function"@, "func"@, "method"@]);
    let t = update(t, "method"@, seq!["function"@, "fn"@, "func"@]);
    let t = update(t, "class"@, seq!["type"@, "struct"@, "object"@]);
    let t = update(t, "struct"@, seq!["class"@, "type"@]);
    let t = update(t, "interface"@, seq!["trait"@, "protocol"@]);
    let t = update(t, "trait"@, seq!["interface"@]);
    let t = update(t, "variable"@, seq!["var"@, "let"@, "const"@]);
    let t = update(t, "var"@, seq!["variable"@, "let"@]);
    let t = update(t, "const"@, seq!["constant"@]);
    let t = update(t, "constant"@, seq!["const"@]);
    let t = update(t, "auth"@, seq!["authentication"@, "authorize"@, "login"@]);
    let t = update(t, "authentication"@, seq!["auth"@, "login"@]);
    let t = update(t, "login"@, seq!["signin"@, "auth"@]);
    let t = update(t, "logout"@, seq!["signout"@]);
    let t = update(t, "component"@, seq!["comp"@, "widget"@]);
    let t = update(t, "hook"@, seq!["usehook"@]);
    let t = update(t, "api"@, seq!["endpoint"@, "service"@]);
    let t = update(t, "request"@, seq!["req"@]);
    let t = update(t, "response"@, seq!["resp"@, "res"@]);
    let t = update(t, "database"@, seq!["db"@, "store"@]);
    let t = update(t, "query"@, seq!["search"@, "find"@]);
    let t = update(t, "error"@, seq!["err"@, "exception"@]);
    let t = update(t, "exception"@, seq!["error"@, "err"@]);
    let t = update(t, "config"@, seq!["configuration"@, "settings"@]);
    let t = update(t, "configuration"@, seq!["config"@, "settings"@]);
    let t = update(t, "test"@, seq!["spec"@, "unittest"@]);
    let t = update(t, "mock"@, seq!["stub"@, "fake"@]);
    let t = update(t, "async"@, seq!["asynchronous"@, "await"@]);
    let t = update(t, "promise"@, seq!["future"@]);
    let t = update(t, "import"@, seq!["require"@, "use"@]);
    let t = update(t, "export"@, seq!["expose"@]);
    t
}

/// Pairs of a term and its synonyms, by their characters.
pub open spec fn pairs_view(ps: Seq<(String, Vec<String>)>) -> SynonymTable {
    ps.map_values(|p: (String, Vec<String>)| (p.0@, views(p.1@)))
}

/// The table obtained by binding each pair in turn.
pub open spec fn bind_all(ps: SynonymTable) -> SynonymTable
    decreases ps.len(),
{
    if ps.len() == 0 {
        Seq::empty()
    } else {
        update(bind_all(ps.drop_last()), ps.last().0, ps.last().1)
    }
}

/// A copy of a list of strings.
fn clone_strings(v: &Vec<String>) -> (c: Vec<String>)
    ensures
        views(c@) == views(v@),
{
    let mut c: Vec<String> = Vec::new();
    let mut i: usize = 0;
    while i < v.len()
        invariant
            i <= v.len(),
            views(c@) == views(v@).take(i as int),
        decreases v.len() - i,
    {
        let s = v[i].clone();
        let ghost before = c@;
        c.push(s);
        assert(views(c@) =~= views(before).push(v@[i as int]@));
        assert(views(c@) =~= views(v@).take(i + 1));
        i = i + 1;
    }
    assert(views(v@).take(v.len() as int) =~= views(v@));
    c
}

/// Taking one more term into account adds its synonyms when it matches.
proof fn lemma_prefix_step(table: SynonymTable, token: Seq<char>, i: int)
    requires
        0 <= i < table.len(),
    ensures
        prefix_synonyms(table, token, i + 1) == prefix_synonyms(table, token, i).union(
            if prefix_related(token, table[i].0) {
                table[i].1.to_set()
            } else {
                Set::empty()
            },
        ),
{
    let extra = if prefix_related(token, table[i].0) {
        table[i].1.to_set()
    } else {
        Set::<Seq<char>>::empty()
    };
    assert forall|s: Seq<char>| #[trigger]
        prefix_synonyms(table, token, i + 1).contains(s) implies prefix_synonyms(
        table,
        token,
        i,
    ).union(extra).contains(s) by {
        let j = choose|j: int|
            0 <= j < i + 1 && prefix_related(token, #[trigger] table[j].0) && table[j].1.contains(
                s,
            );
        if j == i {
            assert(extra.contains(s));
        } else {
            assert(prefix_synonyms(table, token, i).contains(s));
        }
    }
    assert forall|s: Seq<char>| #[trigger]
        prefix_synonyms(table, token, i).union(extra).contains(s) implies prefix_synonyms(
        table,
        token,
        i + 1,
    ).contains(s) by {
        if extra.contains(s) {
            assert(table[i].1.contains(s));
        } else {
            let j = choose|j: int|
                0 <= j < i && prefix_related(token, #[trigger] table[j].0) && table[j].1.contains(
                    s,
                );
            assert(table[j].1.contains(s));
        }
    }
    assert(prefix_synonyms(table, token, i + 1) =~= prefix_synonyms(table, token, i).union(extra));
}

/// Taking one more token into account adds what it expands to.
proof fn lemma_expansion_step(table: SynonymTable, tokens: Seq<Seq<char>>, k: int)
    requires
        0 <= k < tokens.len(),
    ensures
        expansion(table, tokens.take(k + 1)) == expansion(table, tokens.take(k)).union(
            token_synonyms(table, tokens[k]),
        ),
{
    let a = tokens.take(k + 1);
    let b = tokens.take(k);
    assert forall|s: Seq<char>| #[trigger] expansion(table, a).contains(s) implies expansion(
        table,
        b,
    ).union(token_synonyms(table, tokens[k])).contains(s) by {
        let m = choose|m: int| 0 <= m < a.len() && token_synonyms(table, #[trigger] a[m]).contains(s);
        if m < k {
            assert(b[m] == a[m]);
            assert(expansion(table, b).contains(s));
        }
    }
    assert forall|s: Seq<char>| #[trigger]
        expansion(table, b).union(token_synonyms(table, tokens[k])).contains(s) implies expansion(
        table,
        a,
    ).contains(s) by {
        if expansion(table, b).contains(s) {
            let m = choose|m: int| 0 <= m < b.len() && token_synonyms(table, #[trigger] b[m]).contains(s);
            assert(a[m] == b[m]);
        } else {
            assert(a[k] == tokens[k]);
        }
    }
    assert(expansion(table, a) =~= expansion(table, b).union(token_synonyms(table, tokens[k])));
}

/// Bind a term in a map of string lists.
fn bind(m: &mut StrMap<Vec<String>>, term: &str, syns: Vec<String>)
    ensures
        table_of(final(m).entries()) == update(table_of(old(m).entries()), term@, views(syns@)),
{
    proof {
        lemma_update_map(m.entries(), term@, syns, string_list_view());
    }
    m.insert(term.to_owned(), syns);
}

/// Add every string of `syns` to a strictly sorted list.
fn insert_all(result: &mut Vec<String>, syns: &Vec<String>)
    requires
        strictly_sorted(views(old(result)@)),
    ensures
        strictly_sorted(views(final(result)@)),
        views(final(result)@).to_set() == views(old(result)@).to_set().union(
            views(syns@).to_set(),
        ),
{
    let mut i: usize = 0;
    while i < syns.len()
        invariant
            i <= syns.len(),
            strictly_sorted(views(result@)),
            views(result@).to_set() == views(old(result)@).to_set().union(
                views(syns@).take(i as int).to_set(),
            ),
        decreases syns.len() - i,
    {
        insert_sorted(result, syns[i].clone());
        proof {
            let vs = views(syns@);
            assert(vs.take(i + 1) =~= vs.take(i as int).push(vs[i as int]));
            vs.take(i as int).lemma_push_to_set_commute(vs[i as int]);
            assert(views(result@).to_set() =~= views(old(result)@).to_set().union(
                vs.take(i + 1).to_set(),
            ));
        }
        i = i + 1;
    }
    assert(views(syns@).take(syns.len() as int) =~= views(syns@));
}

/// Query expander that adds synonyms and related concepts to queries.
pub struct QueryExpander {
    synonyms: StrMap<Vec<String>>,
}

impl View for QueryExpander {
    type V = SynonymTable;

    closed spec fn view(&self) -> SynonymTable {
        table_of(self.synonyms.entries())
    }
}

impl QueryExpander {
    /// A new query expander with the default code-related synonyms.
    pub fn new() -> (e: Self)
        ensures
            e@ == default_synonym_table(),
    {
        QueryExpander { synonyms: Self::default_synonyms() }
    }

    /// An expander with custom synonyms, bound in the order given (a later
    /// binding of a term replaces an earlier one).
    pub fn with_synonyms(synonyms: Vec<(String, Vec<String>)>) -> (e: Self)
        ensures
            e@ == bind_all(pairs_view(synonyms@)),
    {
        let mut m: StrMap<Vec<String>> = StrMap::new();
        let ghost ps = pairs_view(synonyms@);
        assert(table_of(m.entries()) =~= Seq::<(Seq<char>, Seq<Seq<char>>)>::empty());
        let mut i: usize = 0;
        while i < synonyms.len()
            invariant
                i <= synonyms.len(),
                ps == pairs_view(synonyms@),
                table_of(m.entries()) == bind_all(ps.take(i as int)),
            decreases synonyms.len() - i,
        {
            let syns = clone_strings(&synonyms[i].1);
            bind(&mut m, synonyms[i].0.as_str(), syns);
            assert(ps.take(i + 1).drop_last() =~= ps.take(i as int));
            i = i + 1;
        }
        assert(ps.take(synonyms.len() as int) =~= ps);
        QueryExpander { synonyms: m }
    }

    /// Expand query tokens with synonyms and related terms, sorted and free
    /// of duplicates.
    pub fn expand(&self, tokens: &[String]) -> (r: Vec<String>)
        ensures
            strictly_sorted(views(r@)),
            views(r@).to_set() == expansion(self@, views(tokens@)),
    {
        let ghost table = self@;
        let ghost toks = views(tokens@);
        let mut result: Vec<String> = Vec::new();
        let mut k: usize = 0;
        assert(views(result@).to_set() =~= expansion(table, toks.take(0)));
        while k < tokens.len()
            invariant
                k <= tokens.len(),
                table == self@,
                toks == views(tokens@),
                strictly_sorted(views(result@)),
                views(result@).to_set() == expansion(table, toks.take(k as int)),
            decreases tokens.len() - k,
        {
            let token = tokens[k].as_str();
            let ghost t = toks[k as int];
            assert(token@ == t);
            let ghost before = views(result@).to_set();
            proof {
                lemma_lookup_map(self.synonyms.entries(), t, string_list_view());
            }
            match self.synonyms.get(token) {
                Some(syns) => {
                    insert_all(&mut result, syns);
                },
                None => {},
            }
            assert(views(result@).to_set() =~= before.union(exact_synonyms(table, t)));
            let long = token.len() > 4;
            let mut i: usize = 0;
            assert(prefix_synonyms(table, t, 0) =~= Set::<Seq<char>>::empty());
            assert(views(result@).to_set() =~= before.union(exact_synonyms(table, t)).union(
                prefix_synonyms(table, t, 0),
            ));
            while i < self.synonyms.len()
                invariant
                    i <= self.synonyms.entries().len(),
                    table == self@,
                    table.len() == self.synonyms.entries().len(),
                    token@ == t,
                    long == (byte_len(t) > 4),
                    strictly_sorted(views(result@)),
                    views(result@).to_set() == before.union(exact_synonyms(table, t)).union(
                        prefix_synonyms(table, t, i as int),
                    ),
                decreases self.synonyms.entries().len() - i,
            {
                let key = self.synonyms.key_at(i).as_str();
                assert(table[i as int].0 == key@);
                proof {
                    lemma_prefix_step(table, t, i as int);
                }
                if long && (str_starts_with(token, key) || str_starts_with(key, token)) {
                    let syns = self.synonyms.value_at(i);
                    assert(table[i as int].1 == views(syns@));
                    insert_all(&mut result, syns);
                }
                assert(views(result@).to_set() =~= before.union(exact_synonyms(table, t)).union(
                    prefix_synonyms(table, t, i + 1),
                ));
                i = i + 1;
            }
            proof {
                lemma_expansion_step(table, toks, k as int);
            }
            assert(views(result@).to_set() =~= expansion(table, toks.take(k + 1)));
            k = k + 1;
        }
        assert(toks.take(tokens.len() as int) =~= toks);
        result
    }

    /// Add custom synonyms for a term, replacing any it had.
    pub fn add_synonym(&mut self, term: String, synonyms: Vec<String>)
        ensures
            final(self)@ == update(old(self)@, term@, views(synonyms@)),
    {
        bind(&mut self.synonyms, term.as_str(), synonyms);
    }

    /// The synonyms listed for a term.
    pub fn get_synonyms(&self, term: &str) -> (r: Option<&Vec<String>>)
        ensures
            match r {
                Some(v) => lookup(self@, term@) == Some(views(v@)),
                None => lookup(self@, term@) is None,
            },
    {
        proof {
            lemma_lookup_map(self.synonyms.entries(), term@, string_list_view());
        }
        self.synonyms.get(term)
    }

    /// Default code-related synonym mappings.
    fn default_synonyms() -> (m: StrMap<Vec<String>>)
        ensures
            table_of(m.entries()) == default_synonym_table(),
    {
        let mut m: StrMap<Vec<String>> = StrMap::new();
        assert(table_of(m.entries()) =~= Seq::<(Seq<char>, Seq<Seq<char>>)>::empty());
        bind(&mut m, "function", string_list3("fn", "func", "method"));
        bind(&mut m, "fn", string_list3("function", "func", "method"));
        bind(&mut m, "method", string_list3("function", "fn", "func"));
        bind(&mut m, "class", string_list3("type", "struct", "object"));
        bind(&mut m, "struct", string_list2("class", "type"));
        bind(&mut m, "interface", string_list2("trait", "protocol"));
        bind(&mut m, "trait", string_list1("interface"));
        bind(&mut m, "variable", string_list3("var", "let", "const"));
        bind(&mut m, "var", string_list2("variable", "let"));
        bind(&mut m, "const", string_list1("constant"));
        bind(&mut m, "constant", string_list1("const"));
        bind(&mut m, "auth", string_list3("authentication", "authorize", "login"));
        bind(&mut m, "authentication", string_list2("auth", "login"));
        bind(&mut m, "login", string_list2("signin", "auth"));
        bind(&mut m, "logout", string_list1("signout"));
        bind(&mut m, "component", string_list2("comp", "widget"));
        bind(&mut m, "hook", string_list1("usehook"));
        bind(&mut m, "api", string_list2("endpoint", "service"));
        bind(&mut m, "request", string_list1("req"));
        bind(&mut m, "response", string_list2("resp", "res"));
        bind(&mut m, "database", string_list2("db", "store"));
        bind(&mut m, "query", string_list2("search", "find"));
        bind(&mut m, "error", string_list2("err", "exception"));
        bind(&mut m, "exception", string_list2("error", "err"));
        bind(&mut m, "config", string_list2("configuration", "settings"));
        bind(&mut m, "configuration", string_list2("config", "settings"));
        bind(&mut m, "test", string_list2("spec", "unittest"));
        bind(&mut m, "mock", string_list2("stub", "fake"));
        bind(&mut m, "async", string_list2("asynchronous", "await"));
        bind(&mut m, "promise", string_list1("future"));
        bind(&mut m, "import", string_list2("require", "use"));
        bind(&mut m, "export", string_list1("expose"));
        m
    }
}

impl Default for QueryExpander {
    fn default() -> (e: Self)
        ensures
            e@ == default_synonym_table(),
    {
        Self::new()
    }
}

/// Law: every synonym listed under a query token is in the expansion, and
/// no token means no expansion.
pub proof fn lemma_expansion_covers_listed_synonyms(
    table: SynonymTable,
    tokens: Seq<Seq<char>>,
    k: int,
    s: Seq<char>,
)
    requires
        0 <= k < tokens.len(),
        lookup(table, tokens[k]) matches Some(syns) && syns.contains(s),
    ensures
        expansion(table, tokens).contains(s),
        expansion(table, Seq::empty()) == Set::<Seq<char>>::empty(),
{
    assert(exact_synonyms(table, tokens[k]).contains(s));
    assert(token_synonyms(table, tokens[k]).contains(s));
    assert(expansion(table, Seq::empty()) =~= Set::<Seq<char>>::empty());
}

/// The synonyms of the last pair binding `term`, if any pair does.
pub open spec fn last_binding(ps: SynonymTable, term: Seq<char>) -> Option<Seq<Seq<char>>>
    decreases ps.len(),
{
    if ps.len() == 0 {
        None
    } else if ps.last().0 == term {
        Some(ps.last().1)
    } else {
        last_binding(ps.drop_last(), term)
    }
}

/// Law: an expander made from pairs looks a term up as the pairs bind it:
/// the last pair for the term gives its synonyms, and a term no pair binds
/// has none (no default synonym is merged in). When no term occurs twice,
/// as in a map, the synonyms of a term are those of its own pair.
pub proof fn lemma_custom_synonyms_lookup(ps: SynonymTable, term: Seq<char>)
    ensures
        lookup(bind_all(ps), term) == last_binding(ps, term),
        (forall|i: int, j: int| 0 <= i < j < ps.len() ==> #[trigger] ps[i].0 != #[trigger] ps[j].0)
            ==> forall|i: int|
            0 <= i < ps.len() && #[trigger] ps[i].0 == term ==> lookup(bind_all(ps), term) == Some(
                ps[i].1,
            ),
    decreases ps.len(),
{
    if ps.len() > 0 {
        lemma_custom_synonyms_lookup(ps.drop_last(), term);
        lemma_lookup_update(bind_all(ps.drop_last()), ps.last().0, ps.last().1, term);
        if forall|i: int, j: int| 0 <= i < j < ps.len() ==> #[trigger] ps[i].0 != #[trigger] ps[j].0 {
            assert forall|i: int| 0 <= i < ps.len() && #[trigger] ps[i].0 == term implies lookup(
                bind_all(ps),
                term,
            ) == Some(ps[i].1) by {
                if i < ps.len() - 1 {
                    assert(ps.drop_last()[i] == ps[i]);
                    assert(ps[i].0 != ps[ps.len() - 1].0);
                    assert forall|a: int, b: int| 0 <= a < b < ps.drop_last().len() implies #[trigger] ps.drop_last()[a].0
                        != #[trigger] ps.drop_last()[b].0 by {
                        assert(ps.drop_last()[a] == ps[a]);
                        assert(ps.drop_last()[b] == ps[b]);
                    }
                }
            }
        }
    }
}

} // verus!

//! Full-text-search query construction.
//!
//! A raw search string is cleaned of the characters that would break the
//! search syntax, split on whitespace, and rebuilt as prefix terms; the
//! condition builders emit parameterized fragments only, never the search
//! text itself.

use vstd::prelude::*;
use crate::ext::push_char;
use crate::text::{is_space, trim_seq, trim_str};

verus! {

/// A character stripped from search input because it carries meaning in
/// the search syntax.
pub open spec fn is_fts_banned(c: char) -> bool {
    c == '(' || c == ')' || c == '*' || c == '"' || c == ':' || c == '^' || c == '-' || c == '+'
        || c == '~' || c == '&' || c == '|'
}

/// The cleaned search text rebuilt as prefix terms: banned characters
/// dropped, maximal non-blank runs joined by single spaces, each run
/// suffixed with a star.  `in_word` records whether a run is open,
/// `started` whether any run was emitted yet.
pub open spec fn fts_terms(s: Seq<char>, in_word: bool, started: bool) -> Seq<char>
    decreases s.len(),
{
    if s.len() == 0 {
        if in_word {
            seq!['*']
        } else {
            Seq::empty()
        }
    } else {
        let c = s[0];
        let rest = s.drop_first();
        if is_fts_banned(c) {
            fts_terms(rest, in_word, started)
        } else if is_space(c) {
            if in_word {
                seq!['*'] + fts_terms(rest, false, true)
            } else {
                fts_terms(rest, false, started)
            }
        } else {
            if !in_word && started {
                seq![' ', c] + fts_terms(rest, true, true)
            } else {
                seq![c] + fts_terms(rest, true, true)
            }
        }
    }
}

/// The prefix-term form of a whole search string.
pub open spec fn fts_query_of(s: Seq<char>) -> Seq<char> {
    fts_terms(s, false, false)
}

/// The cleaned search text with runs joined by single spaces and no
/// star suffixes.
pub open spec fn collapsed_terms(s: Seq<char>, in_word: bool, started: bool) -> Seq<char>
    decreases s.len(),
{
    if s.len() == 0 {
        Seq::empty()
    } else {
        let c = s[0];
        let rest = s.drop_first();
        if is_fts_banned(c) {
            collapsed_terms(rest, in_word, started)
        } else if is_space(c) {
            collapsed_terms(rest, false, started)
        } else {
            if !in_word && started {
                seq![' ', c] + collapsed_terms(rest, true, true)
            } else {
                seq![c] + collapsed_terms(rest, true, true)
            }
        }
    }
}

fn is_fts_banned_exec(c: char) -> (r: bool)
    ensures
        r == is_fts_banned(c),
{
    c == '(' || c == ')' || c == '*' || c == '"' || c == ':' || c == '^' || c == '-' || c == '+'
        || c == '~' || c == '&' || c == '|'
}

fn is_space_exec(c: char) -> (r: bool)
    ensures
        r == is_space(c),
{
    crate::text::is_space_char(c)
}

/// Builder of search-condition fragments.
pub struct FtsQueryBuilder;

impl FtsQueryBuilder {
    /// Cleans a search string and rebuilds it as star-suffixed prefix
    /// terms joined by single spaces.
    pub fn build_fts_query(search: &str) -> (r: String)
        ensures
            r@ == fts_query_of(search@),
    {
        let n = search.unicode_len();
        let mut out = String::new();
        let mut in_word = false;
        let mut started = false;
        proof {
            assert(search@.skip(0) =~= search@);
            assert(fts_query_of(search@) =~= out@ + fts_terms(search@.skip(0), false, false));
        }
        let mut i: usize = 0;
        while i < n
            invariant
                0 <= i <= n,
                n == search@.len(),
                fts_query_of(search@) == out@ + fts_terms(search@.skip(i as int), in_word, started),
                in_word ==> started,
            decreases n - i,
        {
            let c = search.get_char(i);
            proof {
                assert(search@.skip(i as int)[0] == search@[i as int]);
                assert(search@.skip(i as int).drop_first() =~= search@.skip(i + 1));
            }
            if is_fts_banned_exec(c) {
            } else if is_space_exec(c) {
                if in_word {
                    push_char(&mut out, '*');
                    in_word = false;
                    started = true;
                }
            } else {
                if !in_word && started {
                    push_char(&mut out, ' ');
                    push_char(&mut out, c);
                } else {
                    push_char(&mut out, c);
                }
                in_word = true;
                started = true;
            }
            proof {
                assert(fts_query_of(search@) =~= out@ + fts_terms(
                    search@.skip(i + 1),
                    in_word,
                    started,
                ));
            }
            i = i + 1;
        }
        if in_word {
            push_char(&mut out, '*');
        }
        proof {
            assert(search@.skip(n as int) =~= Seq::<char>::empty());
            assert(out@ =~= fts_query_of(search@));
        }
        out
    }

    /// The public escaping entry: the same cleaning and prefix-term
    /// rebuild.
    pub fn escape_fts_query(query: &str) -> (r: String)
        ensures
            r@ == fts_query_of(query@),
    {
        Self::build_fts_query(query)
    }

    /// Builds the general search condition: a full-text rowid
    /// subquery when the index is available, else a LIKE fallback over
    /// the given fields.  Returns the fragment and its bind parameters;
    /// blank searches and empty term lists yield an empty fragment.
    pub fn build_search_condition(
        search: &str,
        use_fts: bool,
        fts_table: &str,
        like_fields: &Vec<String>,
        table_alias: &str,
    ) -> (r: (String, Vec<String>))
        ensures
            ({
                let t = trim_seq(search@);
                if t.len() == 0 {
                    r.0@ == Seq::<char>::empty() && r.1@.len() == 0
                } else if use_fts {
                    if fts_query_of(t).len() == 0 {
                        r.0@ == Seq::<char>::empty() && r.1@.len() == 0
                    } else {
                        r.0@ == fts_condition(table_alias@, fts_table@) && r.1@.len() == 1
                            && r.1@[0]@ == fts_query_of(t)
                    }
                } else if like_fields@.len() == 0 {
                    r.0@ == Seq::<char>::empty() && r.1@.len() == 0
                } else {
                    r.0@ == "("@ + like_join(table_alias@, str_views(like_fields@)) + ")"@
                        && r.1@.len() == like_fields@.len() && forall|k: int|
                        0 <= k < r.1@.len() ==> #[trigger] r.1@[k]@ == like_pattern(t)
                }
            }),
    {
        let trimmed = trim_str(search);
        if trimmed.unicode_len() == 0 {
            return (String::new(), Vec::new());
        }
        if use_fts {
            let fts_query = Self::build_fts_query(trimmed);
            if fts_query.unicode_len() == 0 {
                return (String::new(), Vec::new());
            }
            let mut cond = String::from_str(table_alias);
            cond.append(".rowid IN (SELECT rowid FROM ");
            cond.append(fts_table);
            cond.append(" WHERE ");
            cond.append(fts_table);
            cond.append(" MATCH ?)");
            let mut params: Vec<String> = Vec::new();
            params.push(fts_query);
            proof {
                assert(cond@ =~= fts_condition(table_alias@, fts_table@));
            }
            (cond, params)
        } else {
            if like_fields.len() == 0 {
                return (String::new(), Vec::new());
            }
            let pattern = like_pattern_exec(trimmed);
            let mut cond = String::from_str("(");
            let mut params: Vec<String> = Vec::new();
            let n = like_fields.len();
            let mut i: usize = 0;
            while i < n
                invariant
                    0 <= i <= n,
                    n == like_fields@.len(),
                    n > 0,
                    cond@ == "("@ + like_join(
                        table_alias@,
                        str_views(like_fields@).take(i as int),
                    ),
                    params@.len() == i,
                    forall|k: int|
                        0 <= k < i ==> #[trigger] params@[k]@ == like_pattern(trim_seq(search@)),
                    pattern@ == like_pattern(trim_seq(search@)),
                decreases n - i,
            {
                proof {
                    assert(str_views(like_fields@)[i as int] == like_fields@[i as int]@);
                    assert(str_views(like_fields@).take(i + 1).drop_last() =~= str_views(
                        like_fields@,
                    ).take(i as int));
                    assert(str_views(like_fields@).take(i + 1).last() == str_views(
                        like_fields@,
                    )[i as int]);
                }
                if i > 0 {
                    cond.append(" OR ");
                }
                cond.append(table_alias);
                cond.append(".");
                cond.append(like_fields[i].as_str());
                cond.append(" LIKE ?");
                params.push(pattern.clone());
                proof {
                    assert(cond@ =~= "("@ + like_join(
                        table_alias@,
                        str_views(like_fields@).take(i + 1),
                    ));
                }
                i = i + 1;
            }
            cond.append(")");
            proof {
                assert(str_views(like_fields@).take(n as int) =~= str_views(like_fields@));
                assert(cond@ =~= "("@ + like_join(table_alias@, str_views(like_fields@)) + ")"@);
            }
            (cond, params)
        }
    }
}


/// The reagent search condition when the full-text index is available:
/// a rowid subquery, or a match in the linked batches.
pub open spec fn reagent_fts_condition(alias: Seq<char>) -> Seq<char> {
    "("@ + alias + ".rowid IN (SELECT rowid FROM reagents_fts WHERE reagents_fts MATCH ?) OR EXISTS (SELECT 1 FROM batches bs WHERE bs.reagent_id = "@
        + alias + ".id AND (bs.batch_number LIKE ? OR bs.cat_number LIKE ? OR bs.supplier LIKE ?)))"@
}

/// The reagent search condition without the index: LIKE tests over the
/// reagent's own fields, or a match in the linked batches.
pub open spec fn reagent_like_condition(alias: Seq<char>) -> Seq<char> {
    "("@ + alias + ".name LIKE ? OR "@ + alias + ".formula LIKE ? OR "@ + alias
        + ".cas_number LIKE ? OR "@ + alias
        + ".manufacturer LIKE ? OR EXISTS (SELECT 1 FROM batches bs WHERE bs.reagent_id = "@
        + alias + ".id AND (bs.batch_number LIKE ? OR bs.cat_number LIKE ? OR bs.supplier LIKE ?)))"@
}

impl FtsQueryBuilder {
    /// Builds the reagent-specialized search condition, searching the
    /// reagent fields and the linked batches.  Blank searches, and
    /// searches whose cleaned term list is empty under full-text mode,
    /// yield an empty fragment.
    pub fn build_reagent_search_condition(search: &str, use_fts: bool, table_alias: &str) -> (r: (
        String,
        Vec<String>,
    ))
        ensures
            ({
                let t = trim_seq(search@);
                if t.len() == 0 {
                    r.0@ == Seq::<char>::empty() && r.1@.len() == 0
                } else if use_fts {
                    if fts_query_of(t).len() == 0 {
                        r.0@ == Seq::<char>::empty() && r.1@.len() == 0
                    } else {
                        r.0@ == reagent_fts_condition(table_alias@) && r.1@.len() == 4 && r.1@[0]@
                            == fts_query_of(t) && r.1@[1]@ == like_pattern(t) && r.1@[2]@
                            == like_pattern(t) && r.1@[3]@ == like_pattern(t)
                    }
                } else {
                    r.0@ == reagent_like_condition(table_alias@) && r.1@.len() == 7 && forall|
                        k: int,
                    |
                        0 <= k < 7 ==> #[trigger] r.1@[k]@ == like_pattern(t)
                }
            }),
    {
        let trimmed = trim_str(search);
        if trimmed.unicode_len() == 0 {
            return (String::new(), Vec::new());
        }
        let pattern = like_pattern_exec(trimmed);
        if use_fts {
            let fts_query = Self::build_fts_query(trimmed);
            if fts_query.unicode_len() == 0 {
                return (String::new(), Vec::new());
            }
            let mut cond = String::from_str("(");
            cond.append(table_alias);
            cond.append(
                ".rowid IN (SELECT rowid FROM reagents_fts WHERE reagents_fts MATCH ?) OR EXISTS (SELECT 1 FROM batches bs WHERE bs.reagent_id = ",
            );
            cond.append(table_alias);
            cond.append(
                ".id AND (bs.batch_number LIKE ? OR bs.cat_number LIKE ? OR bs.supplier LIKE ?)))",
            );
            let mut params: Vec<String> = Vec::new();
            params.push(fts_query);
            params.push(pattern.clone());
            params.push(pattern.clone());
            params.push(pattern);
            proof {
                assert(cond@ =~= reagent_fts_condition(table_alias@));
            }
            (cond, params)
        } else {
            let mut cond = String::from_str("(");
            cond.append(table_alias);
            cond.append(".name LIKE ? OR ");
            cond.append(table_alias);
            cond.append(".formula LIKE ? OR ");
            cond.append(table_alias);
            cond.append(".cas_number LIKE ? OR ");
            cond.append(table_alias);
            cond.append(
                ".manufacturer LIKE ? OR EXISTS (SELECT 1 FROM batches bs WHERE bs.reagent_id = ",
            );
            cond.append(table_alias);
            cond.append(
                ".id AND (bs.batch_number LIKE ? OR bs.cat_number LIKE ? OR bs.supplier LIKE ?)))",
            );
            let mut params: Vec<String> = Vec::new();
            let mut k: usize = 0;
            while k < 7
                invariant
                    0 <= k <= 7,
                    params@.len() == k,
                    forall|j: int|
                        0 <= j < k ==> #[trigger] params@[j]@ == like_pattern(trim_seq(search@)),
                    pattern@ == like_pattern(trim_seq(search@)),
                decreases 7 - k,
            {
                params.push(pattern.clone());
                k = k + 1;
            }
            proof {
                assert(cond@ =~= reagent_like_condition(table_alias@));
            }
            (cond, params)
        }
    }
}

/// The views of a vector of strings.
pub open spec fn str_views(fs: Seq<String>) -> Seq<Seq<char>> {
    fs.map_values(|f: String| f@)
}

/// The full-text rowid-subquery condition for a table alias.
pub open spec fn fts_condition(alias: Seq<char>, fts_table: Seq<char>) -> Seq<char> {
    alias + ".rowid IN (SELECT rowid FROM "@ + fts_table + " WHERE "@ + fts_table + " MATCH ?)"@
}

/// One LIKE test per field, joined by OR.
pub open spec fn like_join(alias: Seq<char>, fields: Seq<Seq<char>>) -> Seq<char>
    decreases fields.len(),
{
    if fields.len() == 0 {
        Seq::empty()
    } else if fields.len() == 1 {
        alias + "."@ + fields[0] + " LIKE ?"@
    } else {
        like_join(alias, fields.drop_last()) + " OR "@ + alias + "."@ + fields.last() + " LIKE ?"@
    }
}

/// The contains-pattern a LIKE test binds.
pub open spec fn like_pattern(t: Seq<char>) -> Seq<char> {
    "%"@ + t + "%"@
}

fn like_pattern_exec(trimmed: &str) -> (r: String)
    ensures
        r@ == like_pattern(trimmed@),
{
    let mut s = String::from_str("%");
    s.append(trimmed);
    s.append("%");
    proof {
        assert(s@ =~= like_pattern(trimmed@));
    }
    s
}

/// The cleaning-and-prefix-term rebuild, as a free helper.
pub fn escape_fts_query(query: &str) -> (r: String)
    ensures
        r@ == fts_query_of(query@),
{
    FtsQueryBuilder::build_fts_query(query)
}

} // verus!

//! Read-side helpers for the reagent listing: the sorting whitelist and
//! the handler-local search condition.
//!
//! Sort fields arrive as caller-supplied text and are mapped onto a
//! fixed whitelist of columns — an unknown field falls back to the
//! creation timestamp, an unknown order to descending — so no caller
//! text ever reaches a query fragment unchecked.

use vstd::prelude::*;
use crate::ext::push_char;
use crate::fts::{
    collapsed_terms, fts_query_of, like_pattern, reagent_fts_condition, FtsQueryBuilder,
};
use crate::ext::lowercase;
use crate::text::{is_space_char, lower_of, str_eq, trim_seq, trim_str};

verus! {

/// The whitelisted sort column for a stated field; unknown fields fall
/// back to the creation timestamp.
pub open spec fn sort_column_of(field: Seq<char>) -> Seq<char> {
    if field == "name"@ {
        "r.name"@
    } else if field == "formula"@ {
        "r.formula"@
    } else if field == "cas_number"@ {
        "r.cas_number"@
    } else if field == "manufacturer"@ {
        "r.manufacturer"@
    } else if field == "status"@ {
        "r.status"@
    } else if field == "created_at"@ {
        "r.created_at"@
    } else if field == "updated_at"@ {
        "r.updated_at"@
    } else if field == "total_quantity"@ {
        "total_quantity"@
    } else if field == "available_quantity"@ {
        "available_quantity"@
    } else if field == "batches_count"@ {
        "batches_count"@
    } else if field == "molecular_weight"@ {
        "r.molecular_weight"@
    } else {
        "r.created_at"@
    }
}

/// Maps a stated sort field onto the whitelisted column, falling back
/// to the creation timestamp.
pub fn validate_sort_field(field: &str) -> (r: &'static str)
    ensures
        r@ == sort_column_of(field@),
{
    if str_eq(field, "name") {
        "r.name"
    } else if str_eq(field, "formula") {
        "r.formula"
    } else if str_eq(field, "cas_number") {
        "r.cas_number"
    } else if str_eq(field, "manufacturer") {
        "r.manufacturer"
    } else if str_eq(field, "status") {
        "r.status"
    } else if str_eq(field, "created_at") {
        "r.created_at"
    } else if str_eq(field, "updated_at") {
        "r.updated_at"
    } else if str_eq(field, "total_quantity") {
        "total_quantity"
    } else if str_eq(field, "available_quantity") {
        "available_quantity"
    } else if str_eq(field, "batches_count") {
        "batches_count"
    } else if str_eq(field, "molecular_weight") {
        "r.molecular_weight"
    } else {
        "r.created_at"
    }
}

/// The validated sort order: ascending only when stated as such in any
/// letter case, else descending.
pub open spec fn sort_order_of(order: Seq<char>) -> Seq<char> {
    if lower_of(order) == "asc"@ {
        "ASC"@
    } else {
        "DESC"@
    }
}

/// Maps a stated sort order onto ASC or DESC, case-insensitively,
/// defaulting to DESC.
pub fn validate_sort_order(order: &str) -> (r: &'static str)
    ensures
        r@ == sort_order_of(order@),
{
    let folded = lowercase(order);
    if str_eq(folded.as_str(), "asc") {
        "ASC"
    } else {
        "DESC"
    }
}

/// Cleans a search string: banned characters dropped, non-blank runs
/// joined by single spaces, without prefix stars.
pub fn escape_fts_query(query: &str) -> (r: String)
    ensures
        r@ == collapsed_terms(query@, false, false),
{
    let n = query.unicode_len();
    let mut out = String::new();
    let mut in_word = false;
    let mut started = false;
    proof {
        assert(query@.skip(0) =~= query@);
        assert(collapsed_terms(query@, false, false) =~= out@ + collapsed_terms(
            query@.skip(0),
            false,
            false,
        ));
    }
    let mut i: usize = 0;
    while i < n
        invariant
            0 <= i <= n,
            n == query@.len(),
            collapsed_terms(query@, false, false) == out@ + collapsed_terms(
                query@.skip(i as int),
                in_word,
                started,
            ),
            in_word ==> started,
        decreases n - i,
    {
        let c = query.get_char(i);
        proof {
            assert(query@.skip(i as int)[0] == query@[i as int]);
            assert(query@.skip(i as int).drop_first() =~= query@.skip(i + 1));
        }
        let banned = c == '(' || c == ')' || c == '*' || c == '"' || c == ':' || c == '^' || c
            == '-' || c == '+' || c == '~' || c == '&' || c == '|';
        let space = is_space_char(c);
        if banned {
        } else if space {
            in_word = false;
        } else {
            if !in_word && started {
                push_char(&mut out, ' ');
                push_char(&mut out, c);
            } else {
                push_char(&mut out, c);
            }
            in_word = true;
            started = true;
        }
        proof {
            assert(collapsed_terms(query@, false, false) =~= out@ + collapsed_terms(
                query@.skip(i + 1),
                in_word,
                started,
            ));
        }
        i = i + 1;
    }
    proof {
        assert(query@.skip(n as int) =~= Seq::<char>::empty());
        assert(out@ =~= collapsed_terms(query@, false, false));
    }
    out
}

/// The handler-local LIKE condition: seven reagent fields and the
/// linked batches.
pub open spec fn handler_like_condition(alias: Seq<char>) -> Seq<char> {
    "("@ + alias + ".name LIKE ? OR "@ + alias + ".formula LIKE ? OR "@ + alias
        + ".cas_number LIKE ? OR "@ + alias + ".manufacturer LIKE ? OR "@ + alias
        + ".storage_conditions LIKE ? OR "@ + alias + ".appearance LIKE ? OR "@ + alias
        + ".hazard_pictograms LIKE ? OR EXISTS (SELECT 1 FROM batches bs WHERE bs.reagent_id = "@
        + alias + ".id AND (bs.batch_number LIKE ? OR bs.cat_number LIKE ? OR bs.supplier LIKE ?)))"@
}

/// Builds the listing handler's search condition: under full-text mode
/// the cleaned search is starred into prefix terms and combined with
/// batch LIKE tests; otherwise seven reagent fields and the batches are
/// tested with LIKE.  Blank searches yield an empty fragment.
pub fn build_search_condition(search: &str, use_fts: bool, table_alias: &str) -> (r: (
    String,
    Vec<String>,
))
    ensures
        ({
            let t = trim_seq(search@);
            if t.len() == 0 {
                r.0@ == Seq::<char>::empty() && r.1@.len() == 0
            } else if use_fts {
                if fts_query_of(collapsed_terms(t, false, false)).len() == 0 {
                    r.0@ == Seq::<char>::empty() && r.1@.len() == 0
                } else {
                    r.0@ == reagent_fts_condition(table_alias@) && r.1@.len() == 4 && r.1@[0]@
                        == fts_query_of(collapsed_terms(t, false, false)) && r.1@[1]@
                        == like_pattern(t) && r.1@[2]@ == like_pattern(t) && r.1@[3]@
                        == like_pattern(t)
                }
            } else {
                r.0@ == handler_like_condition(table_alias@) && r.1@.len() == 10 && forall|k: int|
                    0 <= k < 10 ==> #[trigger] r.1@[k]@ == like_pattern(t)
            }
        }),
{
    let trimmed = trim_str(search);
    if trimmed.unicode_len() == 0 {
        return (String::new(), Vec::new());
    }
    let pattern = {
        let mut p = String::from_str("%");
        p.append(trimmed);
        p.append("%");
        proof {
            assert(p@ =~= like_pattern(trim_seq(search@)));
        }
        p
    };
    if use_fts {
        let escaped = escape_fts_query(trimmed);
        let fts_query = FtsQueryBuilder::build_fts_query(escaped.as_str());
        if fts_query.unicode_len() == 0 {
            return (String::new(), Vec::new());
        }
        let mut cond = String::from_str("(");
        cond.append(table_alias);
        cond.append(
            ".rowid IN (SELECT rowid FROM reagents_fts WHERE reagents_fts MATCH ?) OR EXISTS (SELECT 1 FROM batches bs WHERE bs.reagent_id = ",
        );
        cond.append(table_alias);
        cond.append(
            ".id AND (bs.batch_number LIKE ? OR bs.cat_number LIKE ? OR bs.supplier LIKE ?)))",
        );
        let mut params: Vec<String> = Vec::new();
        params.push(fts_query);
        params.push(pattern.clone());
        params.push(pattern.clone());
        params.push(pattern);
        proof {
            assert(cond@ =~= reagent_fts_condition(table_alias@));
        }
        (cond, params)
    } else {
        let mut cond = String::from_str("(");
        cond.append(table_alias);
        cond.append(".name LIKE ? OR ");
        cond.append(table_alias);
        cond.append(".formula LIKE ? OR ");
        cond.append(table_alias);
        cond.append(".cas_number LIKE ? OR ");
        cond.append(table_alias);
        cond.append(".manufacturer LIKE ? OR ");
        cond.append(table_alias);
        cond.append(".storage_conditions LIKE ? OR ");
        cond.append(table_alias);
        cond.append(".appearance LIKE ? OR ");
        cond.append(table_alias);
        cond.append(
            ".hazard_pictograms LIKE ? OR EXISTS (SELECT 1 FROM batches bs WHERE bs.reagent_id = ",
        );
        cond.append(table_alias);
        cond.append(
            ".id AND (bs.batch_number LIKE ? OR bs.cat_number LIKE ? OR bs.supplier LIKE ?)))",
        );
        let mut params: Vec<String> = Vec::new();
        let mut k: usize = 0;
        while k < 10
            invariant
                0 <= k <= 10,
                params@.len() == k,
                forall|j: int|
                    0 <= j < k ==> #[trigger] params@[j]@ == like_pattern(trim_seq(search@)),
                pattern@ == like_pattern(trim_seq(search@)),
            decreases 10 - k,
        {
            params.push(pattern.clone());
            k = k + 1;
        }
        proof {
            assert(cond@ =~= handler_like_condition(table_alias@));
        }
        (cond, params)
    }
}

/// A free-text search request.
pub struct SearchQuery {
    pub q: Option<String>,
    pub limit: Option<i64>,
}

/// One whitelisted sort field, described for a client.
pub struct SortFieldMeta {
    pub field: &'static str,
    pub label: &'static str,
    pub data_type: &'static str,
}

/// The pagination capabilities of the reagent listing.
pub struct ReagentsPaginationMeta {
    pub available_sort_fields: Vec<SortFieldMeta>,
    pub default_sort_field: &'static str,
    pub default_sort_order: &'static str,
    pub default_per_page: i64,
    pub max_per_page: i64,
}

/// A cursor-paginated listing request.
pub struct CursorPaginationQuery {
    pub cursor: Option<String>,
    pub limit: Option<i64>,
    pub search: Option<String>,
    pub status: Option<String>,
    pub manufacturer: Option<String>,
    pub direction: Option<String>,
}

/// The pagination metadata of the reagent listing: the eleven
/// whitelisted sort fields and the defaults.
pub fn reagents_pagination_meta() -> (r: ReagentsPaginationMeta)
    ensures
        r.available_sort_fields@.len() == 11,
        r.default_sort_field@ == "created_at"@,
        r.default_sort_order@ == "DESC"@,
        r.default_per_page == 20,
        r.max_per_page == 100,
        r.available_sort_fields@[0].field@ == "name"@,
        r.available_sort_fields@[10].field@ == "molecular_weight"@,
{
    let mut fields: Vec<SortFieldMeta> = Vec::new();
    fields.push(SortFieldMeta { field: "name", label: "Название", data_type: "string" });
    fields.push(SortFieldMeta { field: "formula", label: "Формула", data_type: "string" });
    fields.push(SortFieldMeta { field: "cas_number", label: "CAS номер", data_type: "string" });
    fields.push(
        SortFieldMeta { field: "manufacturer", label: "Производитель", data_type: "string" },
    );
    fields.push(SortFieldMeta { field: "status", label: "Статус", data_type: "string" });
    fields.push(
        SortFieldMeta { field: "created_at", label: "Дата создания", data_type: "datetime" },
    );
    fields.push(
        SortFieldMeta { field: "updated_at", label: "Дата обновления", data_type: "datetime" },
    );
    fields.push(
        SortFieldMeta {
            field: "total_quantity",
            label: "Общее количество",
            data_type: "number",
        },
    );
    fields.push(
        SortFieldMeta {
            field: "available_quantity",
            label: "Доступное количество",
            data_type: "number",
        },
    );
    fields.push(
        SortFieldMeta {
            field: "batches_count",
            label: "Количество партий",
            data_type: "number",
        },
    );
    fields.push(
        SortFieldMeta {
            field: "molecular_weight",
            label: "Молекулярная масса",
            data_type: "number",
        },
    );
    ReagentsPaginationMeta {
        available_sort_fields: fields,
        default_sort_field: "created_at",
        default_sort_order: "DESC",
        default_per_page: 20,
        max_per_page: 100,
    }
}

} // verus!

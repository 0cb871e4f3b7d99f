use lims_ingest::fts::{escape_fts_query as fts_escape, FtsQueryBuilder};
use lims_ingest::search::{
    build_search_condition, escape_fts_query as handler_escape, reagents_pagination_meta,
    validate_sort_field, validate_sort_order,
};
use lims_ingest::text::normalize_key;

#[test]
fn fts_query_stars_each_word() {
    assert_eq!(FtsQueryBuilder::build_fts_query("hello world"), "hello* world*");
}

#[test]
fn fts_query_strips_special_characters() {
    assert_eq!(
        FtsQueryBuilder::build_fts_query("(hello) *wor:ld* +x"),
        "hello* world* x*"
    );
}

#[test]
fn fts_query_collapses_whitespace() {
    assert_eq!(FtsQueryBuilder::build_fts_query("  a \t b  "), "a* b*");
}

#[test]
fn fts_query_of_only_specials_is_empty() {
    assert_eq!(FtsQueryBuilder::build_fts_query("()*+~"), "");
    assert_eq!(FtsQueryBuilder::build_fts_query(""), "");
}

#[test]
fn escape_entries_agree_with_builder() {
    assert_eq!(FtsQueryBuilder::escape_fts_query("a b"), "a* b*");
    assert_eq!(fts_escape("a b"), "a* b*");
}

#[test]
fn handler_escape_keeps_words_unstared() {
    assert_eq!(handler_escape("  (a)   b  "), "a b");
    assert_eq!(handler_escape("**"), "");
}

#[test]
fn builder_condition_fts_branch() {
    let fields = Vec::new();
    let (cond, params) =
        FtsQueryBuilder::build_search_condition("acet", true, "reagents_fts", &fields, "r");
    assert_eq!(
        cond,
        "r.rowid IN (SELECT rowid FROM reagents_fts WHERE reagents_fts MATCH ?)"
    );
    assert_eq!(params, vec!["acet*".to_string()]);
}

#[test]
fn builder_condition_like_branch() {
    let fields = vec!["name".to_string(), "formula".to_string()];
    let (cond, params) =
        FtsQueryBuilder::build_search_condition(" acet ", false, "reagents_fts", &fields, "r");
    assert_eq!(cond, "(r.name LIKE ? OR r.formula LIKE ?)");
    assert_eq!(params, vec!["%acet%".to_string(), "%acet%".to_string()]);
}

#[test]
fn builder_condition_blank_search_is_empty() {
    let fields = vec!["name".to_string()];
    let (cond, params) =
        FtsQueryBuilder::build_search_condition("   ", true, "reagents_fts", &fields, "r");
    assert_eq!(cond, "");
    assert!(params.is_empty());
}

#[test]
fn builder_condition_no_like_fields_is_empty() {
    let fields = Vec::new();
    let (cond, params) =
        FtsQueryBuilder::build_search_condition("acet", false, "reagents_fts", &fields, "r");
    assert_eq!(cond, "");
    assert!(params.is_empty());
}

#[test]
fn reagent_condition_fts_branch() {
    let (cond, params) = FtsQueryBuilder::build_reagent_search_condition("acet", true, "r");
    assert_eq!(
        cond,
        "(r.rowid IN (SELECT rowid FROM reagents_fts WHERE reagents_fts MATCH ?) OR EXISTS (SELECT 1 FROM batches bs WHERE bs.reagent_id = r.id AND (bs.batch_number LIKE ? OR bs.cat_number LIKE ? OR bs.supplier LIKE ?)))"
    );
    assert_eq!(
        params,
        vec![
            "acet*".to_string(),
            "%acet%".to_string(),
            "%acet%".to_string(),
            "%acet%".to_string()
        ]
    );
}

#[test]
fn reagent_condition_like_branch() {
    let (cond, params) = FtsQueryBuilder::build_reagent_search_condition("acet", false, "r");
    assert_eq!(
        cond,
        "(r.name LIKE ? OR r.formula LIKE ? OR r.cas_number LIKE ? OR r.manufacturer LIKE ? OR EXISTS (SELECT 1 FROM batches bs WHERE bs.reagent_id = r.id AND (bs.batch_number LIKE ? OR bs.cat_number LIKE ? OR bs.supplier LIKE ?)))"
    );
    assert_eq!(params.len(), 7);
    assert!(params.iter().all(|p| p == "%acet%"));
}

#[test]
fn handler_condition_fts_branch() {
    let (cond, params) = build_search_condition("acet one", true, "r");
    assert_eq!(
        cond,
        "(r.rowid IN (SELECT rowid FROM reagents_fts WHERE reagents_fts MATCH ?) OR EXISTS (SELECT 1 FROM batches bs WHERE bs.reagent_id = r.id AND (bs.batch_number LIKE ? OR bs.cat_number LIKE ? OR bs.supplier LIKE ?)))"
    );
    assert_eq!(params[0], "acet* one*");
    assert_eq!(params.len(), 4);
}

#[test]
fn handler_condition_like_branch_has_ten_params() {
    let (cond, params) = build_search_condition("acet", false, "r");
    assert_eq!(
        cond,
        "(r.name LIKE ? OR r.formula LIKE ? OR r.cas_number LIKE ? OR r.manufacturer LIKE ? OR r.storage_conditions LIKE ? OR r.appearance LIKE ? OR r.hazard_pictograms LIKE ? OR EXISTS (SELECT 1 FROM batches bs WHERE bs.reagent_id = r.id AND (bs.batch_number LIKE ? OR bs.cat_number LIKE ? OR bs.supplier LIKE ?)))"
    );
    assert_eq!(params.len(), 10);
    assert!(params.iter().all(|p| p == "%acet%"));
}

#[test]
fn sort_field_whitelist_maps_and_defaults() {
    assert_eq!(validate_sort_field("name"), "r.name");
    assert_eq!(validate_sort_field("total_quantity"), "total_quantity");
    assert_eq!(validate_sort_field("molecular_weight"), "r.molecular_weight");
    assert_eq!(validate_sort_field("id; DROP TABLE reagents"), "r.created_at");
    assert_eq!(validate_sort_field(""), "r.created_at");
}

#[test]
fn sort_order_accepts_asc_case_insensitively() {
    assert_eq!(validate_sort_order("ASC"), "ASC");
    assert_eq!(validate_sort_order("asc"), "ASC");
    assert_eq!(validate_sort_order("Asc"), "ASC");
    assert_eq!(validate_sort_order("DESC"), "DESC");
    assert_eq!(validate_sort_order("sideways"), "DESC");
}

#[test]
fn pagination_meta_lists_the_whitelist() {
    let meta = reagents_pagination_meta();
    assert_eq!(meta.available_sort_fields.len(), 11);
    assert_eq!(meta.available_sort_fields[0].field, "name");
    assert_eq!(meta.available_sort_fields[10].field, "molecular_weight");
    assert_eq!(meta.default_sort_field, "created_at");
    assert_eq!(meta.default_sort_order, "DESC");
    assert_eq!(meta.default_per_page, 20);
    assert_eq!(meta.max_per_page, 100);
}

#[test]
fn keys_are_trimmed_and_folded() {
    assert_eq!(normalize_key("  AbC dEf "), "abc def");
    assert_eq!(normalize_key("Название"), "название");
    assert_eq!(normalize_key("АЦЕТОН"), "ацетон");
    assert_eq!(normalize_key(""), "");
}

#[test]
fn keys_trim_unicode_whitespace() {
    // non-breaking space and ideographic space count as whitespace
    assert_eq!(normalize_key("\u{a0}Acetone\u{3000}"), "acetone");
}

use crate::routing::{routes_of, RoutingTable};
use vstd::prelude::*;

verus! {

/// One row of the configuration as read from the document: `None` where the
/// row is not an array, and within a row `None` for each element that is not a
/// non-negative integer.
pub type ConfigRow = Option<Vec<Option<u64>>>;

/// Why a configuration was refused.
#[derive(Debug, Clone, Copy, PartialEq, Eq, Structural)]
pub enum ConfigError {
    /// The text is not a JSON document.
    InvalidJson,
    /// The document is not an array.
    NotAnArray,
    /// The row at this index is not a non-empty array of non-negative integers.
    BadRow(usize),
}

/// A row read from the document is usable when it is a non-empty array of
/// non-negative integers.
pub open spec fn cells_ok(cells: Option<Seq<Option<u64>>>) -> bool {
    match cells {
        Some(v) => v.len() > 0 && forall|k: int| 0 <= k < v.len() ==> (#[trigger] v[k]) is Some,
        None => false,
    }
}

/// The channel ids of a usable row read from the document.
pub open spec fn cells_ids(cells: Option<Seq<Option<u64>>>) -> Seq<u64> {
    cells->0.map_values(|o: Option<u64>| o->0)
}

/// Every row of the document is usable.
pub open spec fn document_ok(doc: Seq<Option<Seq<Option<u64>>>>) -> bool {
    forall|i: int| 0 <= i < doc.len() ==> cells_ok(#[trigger] doc[i])
}

/// The routing table that the usable rows of a document describe.
pub open spec fn document_table(doc: Seq<Option<Seq<Option<u64>>>>) -> Map<u64, Seq<u64>> {
    routes_of(doc.map_values(|c: Option<Seq<Option<u64>>>| cells_ids(c)))
}

/// The spec value of one row.
pub open spec fn row_view(row: ConfigRow) -> Option<Seq<Option<u64>>> {
    match row {
        Some(v) => Some(v@),
        None => None,
    }
}

/// The spec value of the rows.
pub open spec fn rows_view(rows: Seq<ConfigRow>) -> Seq<Option<Seq<Option<u64>>>> {
    rows.map_values(|r: ConfigRow| row_view(r))
}

/// A row is usable when it is a non-empty array of non-negative integers.
pub open spec fn row_ok(row: ConfigRow) -> bool {
    cells_ok(row_view(row))
}

/// The channel ids of a usable row.
pub open spec fn row_ids(row: ConfigRow) -> Seq<u64> {
    cells_ids(row_view(row))
}

/// Every row is usable.
pub open spec fn rows_ok(rows: Seq<ConfigRow>) -> bool {
    forall|i: int| 0 <= i < rows.len() ==> row_ok(#[trigger] rows[i])
}

/// The routing table that usable rows describe.
pub open spec fn table_of(rows: Seq<ConfigRow>) -> Map<u64, Seq<u64>> {
    routes_of(rows.map_values(|r: ConfigRow| row_ids(r)))
}

/// Checks one row and gives its channel ids.
fn row_to_ids(row: &ConfigRow) -> (r: Option<Vec<u64>>)
    ensures
        r is Some <==> row_ok(*row),
        r matches Some(ids) ==> ids@ == row_ids(*row),
{
    match row {
        None => None,
        Some(cells) => {
            if cells.len() == 0 {
                return None;
            }
            let mut ids: Vec<u64> = Vec::new();
            let mut k: usize = 0;
            while k < cells.len()
                invariant
                    k <= cells@.len(),
                    row->0@ == cells@,
                    forall|j: int| 0 <= j < k ==> (#[trigger] cells@[j]) is Some,
                    ids@ == cells@.take(k as int).map_values(|o: Option<u64>| o->0),
                decreases cells.len() - k,
            {
                match cells[k] {
                    Some(id) => ids.push(id),
                    None => {
                        assert(row->0@[k as int] is None);
                        return None;
                    },
                }
                proof {
                    assert(cells@.take(k + 1).map_values(|o: Option<u64>| o->0) =~= cells@.take(
                        k as int,
                    ).map_values(|o: Option<u64>| o->0).push(cells@[k as int]->0));
                }
                k = k + 1;
            }
            assert(cells@.take(k as int) =~= cells@);
            Some(ids)
        },
    }
}

/// Builds the routing table from the rows of a configuration, refusing the
/// first row that is not a non-empty array of non-negative integers.
pub fn routes_from_rows(rows: &Vec<ConfigRow>) -> (r: Result<RoutingTable, ConfigError>)
    ensures
        r is Ok <==> rows_ok(rows@),
        r matches Ok(t) ==> t@ == table_of(rows@),
        r matches Err(e) ==> (e matches ConfigError::BadRow(i) && i < rows@.len() && !row_ok(
            rows@[i as int],
        ) && rows_ok(rows@.take(i as int))),
{
    let mut ids: Vec<Vec<u64>> = Vec::new();
    let mut i: usize = 0;
    while i < rows.len()
        invariant
            i <= rows@.len(),
            rows_ok(rows@.take(i as int)),
            ids@.len() == i,
            forall|j: int| 0 <= j < i ==> (#[trigger] ids@[j])@ == row_ids(rows@[j]),
            forall|j: int| 0 <= j < i ==> (#[trigger] ids@[j])@.len() > 0,
        decreases rows.len() - i,
    {
        match row_to_ids(&rows[i]) {
            Some(row) => ids.push(row),
            None => {
                return Err(ConfigError::BadRow(i));
            },
        }
        proof {
            assert forall|j: int| 0 <= j < i + 1 implies row_ok(#[trigger] rows@.take(i + 1)[j]) by {
                if j < i {
                    assert(rows@.take(i as int)[j] == rows@[j]);
                }
            }
        }
        i = i + 1;
    }
    assert(rows@.take(i as int) =~= rows@);
    let table = RoutingTable::from_rows(&ids);
    assert(ids@.map_values(|v: Vec<u64>| v@) =~= rows@.map_values(|r: ConfigRow| row_ids(r)));
    Ok(table)
}

/// What `json::parse` reads from a configuration text, in the shape the
/// configuration needs: `None` for text that is not JSON; `Some(None)` for a
/// document that is not an array; else one entry per member of the array:
/// `None` for a member that is not an array, else, per element, what
/// `json::JsonValue::as_u64` gives for it.
pub uninterp spec fn json_config_of(text: Seq<char>) -> Option<Option<Seq<Option<Seq<Option<u64>>>>>>;

/// The spec value of a read document.
pub open spec fn document_view(doc: Option<Option<Vec<ConfigRow>>>) -> Option<
    Option<Seq<Option<Seq<Option<u64>>>>>,
> {
    match doc {
        None => None,
        Some(None) => Some(None),
        Some(Some(rows)) => Some(Some(rows_view(rows@))),
    }
}

/// Relies on json::parse, which reads the text as one JSON document, and on
/// json::JsonValue::as_u64, which gives a whole non-negative number (up to
/// `i64::MAX`) as a `u64`: the document's arrays, converted member by member.
#[verifier::external_body]
fn read_document(text: &str) -> (r: Option<Option<Vec<ConfigRow>>>)
    ensures
        document_view(r) == json_config_of(text@),
{
    match json::parse(text) {
        Err(_) => None,
        Ok(json::JsonValue::Array(members)) => Some(Some(members.iter().map(|m| match m {
            json::JsonValue::Array(cells) => Some(cells.iter().map(|c| c.as_u64()).collect()),
            _ => None,
        }).collect())),
        Ok(_) => Some(None),
    }
}

/// Reads a configuration text: a JSON array of rows `[source, target, ...]`.
/// Text that is not JSON, a document that is not an array, and the first row
/// that is not a non-empty array of non-negative integers are each refused.
pub fn parse_config(text: &str) -> (r: Result<RoutingTable, ConfigError>)
    ensures
        json_config_of(text@) is None ==> r == Err::<RoutingTable, ConfigError>(
            ConfigError::InvalidJson,
        ),
        json_config_of(text@) == Some(None::<Seq<Option<Seq<Option<u64>>>>>) ==> r == Err::<
            RoutingTable,
            ConfigError,
        >(ConfigError::NotAnArray),
        json_config_of(text@) matches Some(Some(doc)) ==> {
            &&& (r is Ok <==> document_ok(doc))
            &&& (r matches Ok(t) ==> t@ == document_table(doc))
            &&& (r matches Err(e) ==> (e matches ConfigError::BadRow(i) && i < doc.len()
                && !cells_ok(doc[i as int]) && document_ok(doc.take(i as int))))
        },
{
    match read_document(text) {
        None => Err(ConfigError::InvalidJson),
        Some(None) => Err(ConfigError::NotAnArray),
        Some(Some(rows)) => {
            let r = routes_from_rows(&rows);
            proof {
                lemma_document_of_rows(rows@);
            }
            r
        },
    }
}

/// What holds of rows holds of the document they are read as.
proof fn lemma_document_of_rows(rows: Seq<ConfigRow>)
    ensures
        rows_ok(rows) <==> document_ok(rows_view(rows)),
        table_of(rows) == document_table(rows_view(rows)),
        forall|i: int|
            0 <= i <= rows.len() ==> (rows_ok(#[trigger] rows.take(i)) <==> document_ok(
                rows_view(rows).take(i),
            )),
{
    let doc = rows_view(rows);
    assert(rows.map_values(|r: ConfigRow| row_ids(r)) =~= doc.map_values(
        |c: Option<Seq<Option<u64>>>| cells_ids(c),
    ));
    assert forall|i: int| 0 <= i <= rows.len() implies (rows_ok(#[trigger] rows.take(i))
        <==> document_ok(doc.take(i))) by {
        assert(rows_view(rows.take(i)) =~= doc.take(i));
        if rows_ok(rows.take(i)) {
            assert forall|j: int| 0 <= j < doc.take(i).len() implies cells_ok(
                #[trigger] doc.take(i)[j],
            ) by {
                assert(row_ok(rows.take(i)[j]));
            }
        }
        if document_ok(doc.take(i)) {
            assert forall|j: int| 0 <= j < rows.take(i).len() implies row_ok(
                #[trigger] rows.take(i)[j],
            ) by {
                assert(cells_ok(doc.take(i)[j]));
            }
        }
    }
    assert(rows.take(rows.len() as int) =~= rows);
    assert(doc.take(doc.len() as int) =~= doc);
}

} // verus!

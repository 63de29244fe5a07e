use vstd::prelude::*;
use crate::db::{
    create_order_index_sql, create_table_sql, create_table_text, insert_row_sql, insert_row_text,
    order_index_text,
};
use crate::strings::string_views;

verus! {

#[verifier::external_type_specification]
#[verifier::external_body]
pub struct ExCsvError(csv::Error);

/// The views of the records of a CSV file.
pub open spec fn records_view(rows: Seq<Vec<String>>) -> Seq<Seq<Seq<char>>> {
    rows.map_values(|r: Vec<String>| string_views(r@))
}

/// The header and the records that `csv::Reader` reads from a CSV text, or
/// `None` when it reports an error.
pub uninterp spec fn csv_records(bytes: Seq<u8>) -> Option<(Seq<Seq<char>>, Seq<Seq<Seq<char>>>)>;

/// Calls `csv::Reader::from_reader` on the bytes, reads the header with
/// `headers` and then every record with `records`, each field as a string.
/// The contract names the outcome: the same bytes always give the same header
/// and records, and an error of the reader gives the error. Which error it
/// is, is not stated.
#[verifier::external_body]
fn parse_csv(bytes: &[u8]) -> (r: Result<(Vec<String>, Vec<Vec<String>>), csv::Error>)
    ensures
        match r {
            Ok((header, rows)) => csv_records(bytes@) == Some((string_views(header@), records_view(rows@))),
            Err(_) => csv_records(bytes@) is None,
        },
{
    let mut rdr = csv::Reader::from_reader(bytes);
    let header: Vec<String> = rdr.headers()?.iter().map(|h| h.to_string()).collect();
    let rows = rdr
        .records()
        .map(|rec| rec.map(|r| r.iter().map(|f| f.to_string()).collect::<Vec<String>>()))
        .collect::<Result<Vec<Vec<String>>, csv::Error>>()?;
    Ok((header, rows))
}

/// A statement to run, with the values of its placeholders.
pub struct SqlStatement {
    pub sql: String,
    pub params: Vec<String>,
}

/// The statements that load a CSV file into a new table: the table, with an
/// `__order` column and one text column per header; the index on `__order`;
/// then, in file order, one insert per record with its position as `__order`
/// and its fields as the values.
pub open spec fn load_statements_ok(
    r: Seq<SqlStatement>,
    table_name: Seq<char>,
    header: Seq<Seq<char>>,
    records: Seq<Seq<Seq<char>>>,
) -> bool {
    &&& r.len() == records.len() + 2
    &&& r[0].sql@ == create_table_text(table_name, header)
    &&& r[0].params@.len() == 0
    &&& r[1].sql@ == order_index_text(table_name)
    &&& r[1].params@.len() == 0
    &&& forall|i: int|
        0 <= i < records.len() ==> {
            &&& (#[trigger] r[i + 2]).sql@ == insert_row_text(
                table_name,
                header,
                (i as i64) as int,
                records[i].len(),
            )
            &&& string_views(r[i + 2].params@) == records[i]
        }
}

/// The statements that load the header and records of a CSV file into a new
/// table (see `load_statements_ok`).
pub fn table_load_statements(table_name: &str, header: &Vec<String>, records: &Vec<Vec<String>>) -> (r: Vec<
    SqlStatement,
>)
    ensures
        load_statements_ok(r@, table_name@, string_views(header@), records_view(records@)),
{
    let mut r: Vec<SqlStatement> = Vec::new();
    r.push(SqlStatement { sql: create_table_sql(table_name, header), params: Vec::new() });
    r.push(SqlStatement { sql: create_order_index_sql(table_name), params: Vec::new() });
    let ghost recs = records_view(records@);
    let mut i: usize = 0;
    while i < records.len()
        invariant
            i <= records@.len(),
            recs == records_view(records@),
            r@.len() == i + 2,
            r@[0].sql@ == create_table_text(table_name@, string_views(header@)),
            r@[0].params@.len() == 0,
            r@[1].sql@ == order_index_text(table_name@),
            r@[1].params@.len() == 0,
            forall|k: int|
                0 <= k < i ==> {
                    &&& (#[trigger] r@[k + 2]).sql@ == insert_row_text(
                        table_name@,
                        string_views(header@),
                        (k as i64) as int,
                        recs[k].len(),
                    )
                    &&& string_views(r@[k + 2].params@) == recs[k]
                },
        decreases records@.len() - i,
    {
        let record = &records[i];
        let sql = insert_row_sql(table_name, header, i as i64, record.len());
        let params = record.clone();
        proof {
            assert(string_views(params@) =~= string_views(record@));
            assert(recs[i as int] == string_views(record@));
        }
        let ghost before = r@;
        r.push(SqlStatement { sql, params });
        proof {
            assert forall|k: int| 0 <= k < i + 2 implies #[trigger] r@[k] == before[k] by {}
        }
        i = i + 1;
    }
    r
}

/// The statements that load a CSV text into a new table: those of
/// `table_load_statements` for the header and records the CSV reader reads,
/// or the reader's error.
pub fn csv_load_statements(table_name: &str, bytes: &[u8]) -> (r: Result<Vec<SqlStatement>, csv::Error>)
    ensures
        match csv_records(bytes@) {
            None => r is Err,
            Some((header, records)) => r matches Ok(s) && load_statements_ok(
                s@,
                table_name@,
                header,
                records,
            ),
        },
{
    let (header, records) = match parse_csv(bytes) {
        Ok(p) => p,
        Err(e) => { return Err(e); },
    };
    Ok(table_load_statements(table_name, &header, &records))
}

/// The bytes `csv::Writer` writes for a header and records, or `None` when
/// it reports an error.
pub uninterp spec fn csv_written(header: Seq<Seq<char>>, rows: Seq<Seq<Seq<char>>>) -> Option<Seq<u8>>;

/// Calls `csv::Writer::from_writer` on an empty buffer, writes the header and
/// then each record with `write_record`, and takes the buffer back with
/// `into_inner`. The contract names the outcome: the same header and records
/// always give the same bytes, and an error of the writer gives the error.
/// Which error it is, is not stated.
#[verifier::external_body]
fn write_csv(header: &Vec<String>, rows: &Vec<Vec<String>>) -> (r: Result<Vec<u8>, csv::Error>)
    ensures
        match r {
            Ok(bytes) => csv_written(string_views(header@), records_view(rows@)) == Some(bytes@),
            Err(_) => csv_written(string_views(header@), records_view(rows@)) is None,
        },
{
    let mut writer = csv::Writer::from_writer(Vec::new());
    writer.write_record(header)?;
    rows.iter().try_for_each(|row| writer.write_record(row))?;
    writer.into_inner().map_err(|e| csv::Error::from(e.into_error()))
}

/// The text of a CSV file with the header and then the records, in order, as
/// the CSV writer writes them; or the writer's error.
pub fn csv_file_text(header: &Vec<String>, rows: &Vec<Vec<String>>) -> (r: Result<Vec<u8>, csv::Error>)
    ensures
        match csv_written(string_views(header@), records_view(rows@)) {
            Some(bytes) => r matches Ok(b) && b@ == bytes,
            None => r is Err,
        },
{
    write_csv(header, rows)
}

} // verus!

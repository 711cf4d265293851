use vstd::prelude::*;
use crate::text::str_eq;

verus! {

/// The one-sentence description of each known plan-node type; the empty
/// sequence for an unknown or absent type.
pub open spec fn spec_description(t: Seq<char>) -> Seq<char> {
    if t == "Append"@ {
        "Used in a UNION to merge multiple record sets by appending them together."@
    } else if t == "Limit"@ {
        "Returns a specified number of rows from a record set."@
    } else if t == "Sort"@ {
        "Sorts a record set based on the specified sort key."@
    } else if t == "Nested Loop"@ {
        "Merges two record sets by looping through every record in the first set and trying to find a match in the second set. All matching records are returned."@
    } else if t == "Merge Join"@ {
        "Merges two record sets by first sorting them on a join key."@
    } else if t == "Hash"@ {
        "Generates a hash table from the records in the input recordset. Hash is used by Hash Join."@
    } else if t == "Hash Join"@ {
        "Joins to record sets by hashing one of them (using a Hash Scan)."@
    } else if t == "Aggregate"@ {
        "Groups records together based on a GROUP BY or aggregate function (e.g. sum())."@
    } else if t == "Hashaggregate"@ {
        "Groups records together based on a GROUP BY or aggregate function (e.g. sum()). Hash Aggregate uses a hash to first organize the records by a key."@
    } else if t == "Seq Scan"@ {
        "Finds relevant records by sequentially scanning the input record set. When reading from a table, Seq Scans (unlike Index Scans) perform a single read operation (only the table is read)."@
    } else if t == "Index Scan"@ {
        "Finds relevant records based on an Index. Index Scans perform 2 read operations: one to read the index and another to read the actual value from the table."@
    } else if t == "Index Only Scan"@ {
        "Finds relevant records based on an Index. Index Only Scans perform a single read operation from the index and do not read from the corresponding table."@
    } else if t == "Bitmap Heap Scan"@ {
        "Searches through the pages returned by the Bitmap Index Scan for relevant rows."@
    } else if t == "Bitmap Index Scan"@ {
        "Uses a Bitmap Index (index which uses 1 bit per page) to find all relevant pages. Results of this node are fed to the Bitmap Heap Scan."@
    } else if t == "CTE Scan"@ {
        "Performs a sequential scan of Common Table Expression (CTE) query results. Note that results of a CTE are materialized (calculated and temporarily stored)."@
    } else {
        Seq::<char>::empty()
    }
}

/// The static description table, keyed by node type.
pub fn description_of(t: &str) -> (r: &'static str)
    ensures
        r@ == spec_description(t@),
{
    if str_eq(t, "Append") {
        "Used in a UNION to merge multiple record sets by appending them together."
    } else if str_eq(t, "Limit") {
        "Returns a specified number of rows from a record set."
    } else if str_eq(t, "Sort") {
        "Sorts a record set based on the specified sort key."
    } else if str_eq(t, "Nested Loop") {
        "Merges two record sets by looping through every record in the first set and trying to find a match in the second set. All matching records are returned."
    } else if str_eq(t, "Merge Join") {
        "Merges two record sets by first sorting them on a join key."
    } else if str_eq(t, "Hash") {
        "Generates a hash table from the records in the input recordset. Hash is used by Hash Join."
    } else if str_eq(t, "Hash Join") {
        "Joins to record sets by hashing one of them (using a Hash Scan)."
    } else if str_eq(t, "Aggregate") {
        "Groups records together based on a GROUP BY or aggregate function (e.g. sum())."
    } else if str_eq(t, "Hashaggregate") {
        "Groups records together based on a GROUP BY or aggregate function (e.g. sum()). Hash Aggregate uses a hash to first organize the records by a key."
    } else if str_eq(t, "Seq Scan") {
        "Finds relevant records by sequentially scanning the input record set. When reading from a table, Seq Scans (unlike Index Scans) perform a single read operation (only the table is read)."
    } else if str_eq(t, "Index Scan") {
        "Finds relevant records based on an Index. Index Scans perform 2 read operations: one to read the index and another to read the actual value from the table."
    } else if str_eq(t, "Index Only Scan") {
        "Finds relevant records based on an Index. Index Only Scans perform a single read operation from the index and do not read from the corresponding table."
    } else if str_eq(t, "Bitmap Heap Scan") {
        "Searches through the pages returned by the Bitmap Index Scan for relevant rows."
    } else if str_eq(t, "Bitmap Index Scan") {
        "Uses a Bitmap Index (index which uses 1 bit per page) to find all relevant pages. Results of this node are fed to the Bitmap Heap Scan."
    } else if str_eq(t, "CTE Scan") {
        "Performs a sequential scan of Common Table Expression (CTE) query results. Note that results of a CTE are materialized (calculated and temporarily stored)."
    } else {
        proof {
            reveal_strlit("");
            assert(""@ =~= Seq::<char>::empty());
        }
        ""
    }
}

} // verus!

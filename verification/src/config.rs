//! The settings of an ingest into a database.
use vstd::prelude::*;

verus! {

/// The settings file of an ingest.
#[derive(Debug, Clone)]
pub struct IngestConfig {
    pub ingest: IngestSection,
}

/// How documents are handed to the database: where it is, which procedure
/// takes them, under which parameter, and how many at a time.
#[derive(Debug, Clone)]
pub struct IngestSection {
    pub connection_string: String,
    pub procedure_name: String,
    pub json_param: String,
    pub batch_size: usize,
}

/// The number of documents in a batch where the settings name none.
pub fn default_batch_size() -> (r: usize)
    ensures
        r == 1000,
{
    1000
}

/// The statement that hands one batch to the procedure.
pub open spec fn statement_of(procedure: Seq<char>, parameter: Seq<char>) -> Seq<char> {
    "EXEC "@ + procedure + " "@ + parameter + " = @P1"@
}

impl IngestSection {
    /// The statement that hands one batch to the procedure.
    pub fn statement(&self) -> (r: String)
        ensures
            r@ == statement_of(self.procedure_name@, self.json_param@),
    {
        let mut out = "EXEC ".to_owned();
        out.append(self.procedure_name.as_str());
        out.append(" ");
        out.append(self.json_param.as_str());
        out.append(" = @P1");
        out
    }

    /// Whether a buffer of `buffered` documents is a full batch.
    pub fn batch_is_full(&self, buffered: usize) -> (r: bool)
        ensures
            r == (buffered >= self.batch_size),
    {
        buffered >= self.batch_size
    }
}

} // verus!

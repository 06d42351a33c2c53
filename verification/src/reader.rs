//! The record that drives one request.

use vstd::prelude::*;

verus! {

/// One decoded record of the input.
///
/// `mid` identifies the record in reports, `id` is the key of the remote
/// resource and fills the request address, `market` names the market the
/// record belongs to; `status` and `status_reason` are the payload.
#[derive(Debug, PartialEq, Eq)]
pub struct CsvRow {
    pub mid: String,
    pub id: String,
    pub market: String,
    pub status: i8,
    pub status_reason: Option<String>,
}

/// What a [`CsvRow`] holds, as plain text and numbers.
pub struct CsvRowView {
    pub mid: Seq<char>,
    pub id: Seq<char>,
    pub market: Seq<char>,
    pub status: i8,
    pub status_reason: Option<Seq<char>>,
}

impl View for CsvRow {
    type V = CsvRowView;

    open spec fn view(&self) -> CsvRowView {
        CsvRowView {
            mid: self.mid@,
            id: self.id@,
            market: self.market@,
            status: self.status,
            status_reason: match self.status_reason {
                Some(reason) => Some(reason@),
                None => None,
            },
        }
    }
}

impl Clone for CsvRow {
    /// A record with the same fields.
    fn clone(&self) -> (copy: Self)
        ensures
            copy == *self,
    {
        CsvRow {
            mid: self.mid.clone(),
            id: self.id.clone(),
            market: self.market.clone(),
            status: self.status,
            status_reason: match &self.status_reason {
                Some(reason) => Some(reason.clone()),
                None => None,
            },
        }
    }
}

impl CsvRow {
    /// A record with the given fields.
    pub fn new(
        mid: String,
        id: String,
        market: String,
        status: i8,
        status_reason: Option<String>,
    ) -> (row: CsvRow)
        ensures
            row == (CsvRow { mid, id, market, status, status_reason }),
    {
        CsvRow { mid, id, market, status, status_reason }
    }
}

} // verus!

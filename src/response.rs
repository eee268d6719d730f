//! The result envelope of one conversion.
use vstd::prelude::*;

verus! {

/// The status text and log of the record that stands in for a conversion
/// whose attempts were all exhausted.
pub open spec fn fatal_text() -> Seq<char> {
    "Default latexml_runner fatal"@
}

/// What one conversion produced: a status code (0 ok, 1 warning, 2 error,
/// 3 fatal), the status text, the converted payload and the log.
#[derive(Debug)]
pub struct LatexmlResponse {
    pub status_code: u8,
    pub status: String,
    pub result: String,
    pub log: String,
}

impl LatexmlResponse {
    /// The record handed out when every attempt at a conversion failed.
    pub open spec fn is_sentinel(&self) -> bool {
        &&& self.status_code == 3
        &&& self.status@ == fatal_text()
        &&& self.result@ == Seq::<char>::empty()
        &&& self.log@ == fatal_text()
    }

    /// The all-zero record.
    pub open spec fn is_zero(&self) -> bool {
        &&& self.status_code == 0
        &&& self.status@ == Seq::<char>::empty()
        &&& self.result@ == Seq::<char>::empty()
        &&& self.log@ == Seq::<char>::empty()
    }

    /// A status code of 3 marks the connection that carried the reply as
    /// suspect: it is not reused.
    pub open spec fn connection_suspect(&self) -> bool {
        self.status_code == 3
    }

    /// The zero record, used for successful empty probes.
    pub fn empty() -> (r: Self)
        ensures
            r.is_zero(),
    {
        LatexmlResponse {
            status_code: 0,
            status: String::new(),
            result: String::new(),
            log: String::new(),
        }
    }
}

impl Default for LatexmlResponse {
    /// The sentinel failure record.
    fn default() -> (r: Self)
        ensures
            r.is_sentinel(),
    {
        let text = "Default latexml_runner fatal";
        proof {
            reveal_strlit("Default latexml_runner fatal");
        }
        LatexmlResponse {
            status_code: 3,
            status: String::from_str(text),
            result: String::new(),
            log: String::from_str(text),
        }
    }
}

} // verus!

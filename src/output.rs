//! What a finished utility hands back, and the token taken from it.
use vstd::prelude::*;
use vstd::utf8::{decode_utf8, valid_utf8};

use crate::token::{
    last_token_or_unknown, lemma_no_token_gives_unknown, sentinel, token_or_sentinel, white_space,
};

verus! {

/// The outcome of running a utility to completion: whether it exited
/// successfully, and the raw bytes of its standard output.
#[derive(Clone, Debug, PartialEq, Eq)]
pub struct CapturedOutput {
    pub success: bool,
    pub stdout: Vec<u8>,
}

/// Relies on `String::from_utf8`: it returns the decoded text exactly when
/// the bytes are valid UTF-8, and an error otherwise.
#[verifier::external_body]
fn decode_utf8_text(bytes: Vec<u8>) -> (r: Option<String>)
    ensures
        r is Some <==> valid_utf8(bytes@),
        r matches Some(s) ==> s@ == decode_utf8(bytes@),
{
    String::from_utf8(bytes).ok()
}

/// The text that a run leaves to be searched for a token: its decoded
/// standard output when it succeeded and the output is valid UTF-8, and the
/// empty text otherwise.
pub open spec fn working_text(success: bool, stdout: Seq<u8>) -> Seq<char> {
    if success && valid_utf8(stdout) {
        decode_utf8(stdout)
    } else {
        Seq::empty()
    }
}

/// The token that a run yields: the last whitespace-separated token of its
/// working text, or `"unknown"`.
pub open spec fn run_token(success: bool, stdout: Seq<u8>) -> Seq<char> {
    token_or_sentinel(working_text(success, stdout))
}

/// A run that exits with failure yields `"unknown"`, whatever it printed.
pub proof fn lemma_failed_run_gives_unknown(stdout: Seq<u8>)
    ensures
        run_token(false, stdout) == sentinel(),
{
    lemma_no_token_gives_unknown(working_text(false, stdout));
}

/// A run whose standard output is not valid UTF-8 yields `"unknown"`.
pub proof fn lemma_undecodable_output_gives_unknown(success: bool, stdout: Seq<u8>)
    requires
        !valid_utf8(stdout),
    ensures
        run_token(success, stdout) == sentinel(),
{
    lemma_no_token_gives_unknown(working_text(success, stdout));
}

/// A successful run whose decoded output holds no whitespace-separated token
/// (it is empty or all whitespace) yields `"unknown"`.
pub proof fn lemma_tokenless_output_gives_unknown(stdout: Seq<u8>)
    requires
        valid_utf8(stdout),
        forall|k: int|
            0 <= k < decode_utf8(stdout).len() ==> white_space(#[trigger] decode_utf8(stdout)[k]),
    ensures
        run_token(true, stdout) == sentinel(),
{
    lemma_no_token_gives_unknown(working_text(true, stdout));
}

impl CapturedOutput {
    /// The decoded standard output of a successful run; empty after a failed
    /// run or when the output is not valid UTF-8.
    pub fn working_text(self) -> (r: String)
        ensures
            r@ == working_text(self.success, self.stdout@),
    {
        if self.success {
            match decode_utf8_text(self.stdout) {
                Some(s) => s,
                None => String::new(),
            }
        } else {
            String::new()
        }
    }

    /// The last whitespace-separated token of the decoded standard output, or
    /// `"unknown"` when the run failed, its output is not valid UTF-8, or the
    /// output holds no token.
    pub fn last_token(self) -> (r: String)
        ensures
            r@ == run_token(self.success, self.stdout@),
    {
        let text = self.working_text();
        last_token_or_unknown(text.as_str())
    }
}

} // verus!

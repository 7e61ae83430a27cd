//! Answers of the service.

use vstd::prelude::*;

use crate::error::Error;
use crate::json;
use crate::json::{Json, JsonTree};
use crate::text;

verus! {

/// The answer to a request.
#[derive(Debug)]
pub struct XiaoaiResponse<T = Json> {
    /// The error code. Any code but 0 says that the request failed.
    pub code: i64,
    /// A short message, mostly of use in finding an error.
    pub message: String,
    /// The data of the answer. Nothing is known of it where the request failed.
    pub data: T,
}

/// The content of an answer.
pub struct ResponseView {
    pub code: i64,
    pub message: Seq<char>,
    pub data: JsonTree,
}

impl View for XiaoaiResponse {
    type V = ResponseView;

    open spec fn view(&self) -> ResponseView {
        ResponseView { code: self.code, message: self.message@, data: self.data@ }
    }
}

impl XiaoaiResponse {
    /// Checks the code: an answer whose code is not 0 becomes an [`Error::Api`].
    pub fn error_for_code(self) -> (r: Result<XiaoaiResponse, Error>)
        ensures
            match r {
                Ok(response) => self.code == 0 && response == self,
                Err(Error::Api(response)) => self.code != 0 && response == self,
                Err(_) => false,
            },
    {
        if self.code == 0 {
            Ok(self)
        } else {
            Err(Error::Api(self))
        }
    }

    /// Hands out the data in the form that deserializers take.
    pub fn extract_data(self) -> (value: serde_json::Value)
        ensures
            json::value_tree(value) == self.data@,
    {
        self.data.to_value()
    }
}

impl XiaoaiResponse {
    /// The lines in which an answer is shown.
    pub open spec fn shown(response: ResponseView) -> Seq<char> {
        "code: "@ + text::decimal(response.code as int) + "\nmessage: "@ + response.message
            + "\ndata: "@ + json::json_text(response.data) + "\n"@
    }

    /// The lines in which this answer is shown.
    pub fn display(&self) -> (r: String)
        ensures
            r@ == XiaoaiResponse::shown(self@),
            r@ == "code: "@ + text::decimal(self.code as int) + "\nmessage: "@ + self.message@
                + "\ndata: "@ + json::json_text(self.data@) + "\n"@,
    {
        let mut r: String = "code: ".to_owned();
        r.append(text::signed(self.code).as_str());
        r.append("\nmessage: ");
        r.append(self.message.as_str());
        r.append("\ndata: ");
        r.append(self.data.to_text().as_str());
        r.append("\n");
        r
    }
}

impl Clone for XiaoaiResponse {
    fn clone(&self) -> (r: Self)
        ensures
            r@ == self@,
            r.code == self.code,
            r.message@ == self.message@,
            r.data@ == self.data@,
    {
        XiaoaiResponse {
            code: self.code,
            message: self.message.clone(),
            data: self.data.clone(),
        }
    }
}

/// The content of an answer is its code, its message and its data.
pub proof fn law_content_is_all(response: XiaoaiResponse)
    ensures
        response@.code == response.code,
        response@.message == response.message@,
        response@.data == response.data@,
{
}

} // verus!

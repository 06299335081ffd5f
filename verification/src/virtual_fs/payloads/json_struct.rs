use vstd::prelude::*;
use vstd::string::*;
use crate::commun_utils::errors::GlobalError;
use crate::text::{decimal, u64_to_decimal};
use crate::third_party::{extension_of, json_quote, json_string_literal, path_extension};
use crate::virtual_fs::payloads::payload::{ReaderStrategist, TryFromReader, chunk_count};
use crate::virtual_fs::runtime::FakeToSubPath;

verus! {

/// The header announcing a served file: the path it is published under,
/// its number of pieces and its extension.
#[derive(Debug)]
pub struct JsonInfo {
    url: String,
    chunks: usize,
    type_file: String,
}

/// The JSON text of a header, fields in declaration order.
pub open spec fn json_info_text(url: Seq<char>, chunks: usize, type_file: Seq<char>) -> Seq<char> {
    "{\"url\":"@ + json_string_literal(url) + ",\"chunks\":"@ + decimal(chunks as nat)
        + ",\"type_file\":"@ + json_string_literal(type_file) + "}"@
}

impl JsonInfo {
    pub closed spec fn url(&self) -> Seq<char> {
        self.url@
    }

    pub closed spec fn chunks(&self) -> usize {
        self.chunks
    }

    pub closed spec fn type_file(&self) -> Seq<char> {
        self.type_file@
    }

    /// The header of the file a reader reads: published path, pieces, and
    /// the extension of its real path (empty when it has none).
    pub open spec fn describes<R: ReaderStrategist<RefPath = FakeToSubPath>>(info: JsonInfo, reader: R) -> bool {
        &&& info.url() == (match reader.spec_inner().fake() {
            Some(f) => f,
            None => reader.spec_inner().inner(),
        })
        &&& info.chunks() == chunk_count(reader.spec_strategy(), reader.spec_len())
        &&& info.type_file() == (match path_extension(reader.spec_inner().inner()) {
            Some(e) => e,
            None => Seq::empty(),
        })
    }

    /// The header as JSON text; `JsonSerialize` when it cannot be written.
    pub fn stringify_to_json(&self) -> (r: Result<String, GlobalError>)
        ensures
            r matches Ok(t) && t@ == json_info_text(self.url(), self.chunks(), self.type_file()),
    {
        let url = match json_quote(self.url.as_str()) {
            Ok(u) => u,
            Err(_) => return Err(GlobalError::JsonSerialize),
        };
        let type_file = match json_quote(self.type_file.as_str()) {
            Ok(t) => t,
            Err(_) => return Err(GlobalError::JsonSerialize),
        };
        let mut text = String::from_str("{\"url\":");
        text.append(url.as_str());
        text.append(",\"chunks\":");
        text.append(u64_to_decimal(self.chunks as u64).as_str());
        text.append(",\"type_file\":");
        text.append(type_file.as_str());
        text.append("}");
        Ok(text)
    }

    pub fn get_chunks(&self) -> (r: usize)
        ensures
            r == self.chunks(),
    {
        self.chunks
    }

    /// A copy of the published path.
    pub fn url_text(&self) -> (r: String)
        ensures
            r@ == self.url(),
    {
        self.url.clone()
    }

    pub fn get_url(self) -> (r: String)
        ensures
            r@ == self.url(),
    {
        self.url
    }
}

impl<R: ReaderStrategist<RefPath = FakeToSubPath>> TryFromReader<R> for JsonInfo {
    type Error = GlobalError;

    fn try_from_reader(path: &R) -> (r: Result<Self, GlobalError>)
        ensures
            r matches Ok(info) && JsonInfo::describes(info, *path),
    {
        let inner = path.get_inner_path();
        let ext = match extension_of(inner.as_ref()) {
            Some(e) => e,
            None => String::new(),
        };
        let cow_path = inner.get_link();
        Ok(JsonInfo { url: cow_path.to_owned(), chunks: path.chunck_number(), type_file: ext })
    }
}

} // verus!

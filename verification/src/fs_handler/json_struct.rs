use vstd::prelude::*;
use vstd::string::*;
use crate::fs_handler::strategy::{
    CHUNK_SMALL_MEDIUM, CHUNK_SMALL_SLICE, GIGA_FILE, HUGE_FILE, LARGE_FILE,
};
use crate::text::{decimal, u64_to_decimal};
use crate::third_party::{extension_of, json_quote, json_string_literal, path_extension};

verus! {

/// The number of pieces a file of `len` bytes is announced in.
pub open spec fn announced_chunks(len: u64) -> nat {
    if len <= LARGE_FILE {
        1
    } else if len <= HUGE_FILE {
        (len / CHUNK_SMALL_SLICE) as nat
    } else if len <= GIGA_FILE {
        (len / CHUNK_SMALL_MEDIUM) as nat
    } else {
        0
    }
}

/// The extension of a path as text; empty when it has none.
pub open spec fn extension_text(path: Seq<char>) -> Seq<char> {
    match path_extension(path) {
        Some(e) => e,
        None => Seq::empty(),
    }
}

/// The header announcing a file: its path, size, number of pieces and
/// extension.
#[derive(Debug)]
pub struct JsonInfo {
    url: String,
    size: u64,
    chunks: usize,
    type_file: String,
}

/// The JSON text of a header, fields in declaration order.
pub open spec fn json_info_text(url: Seq<char>, size: u64, chunks: usize, type_file: Seq<char>) -> Seq<char> {
    "{\"url\":"@ + json_string_literal(url) + ",\"size\":"@ + decimal(size as nat) + ",\"chunks\":"@
        + decimal(chunks as nat) + ",\"type_file\":"@ + json_string_literal(type_file) + "}"@
}

impl JsonInfo {
    pub closed spec fn url(&self) -> Seq<char> {
        self.url@
    }

    pub closed spec fn size(&self) -> u64 {
        self.size
    }

    pub closed spec fn chunks(&self) -> usize {
        self.chunks
    }

    pub closed spec fn type_file(&self) -> Seq<char> {
        self.type_file@
    }

    /// The header of the file at `path`, `len` bytes long.
    pub fn new(path: &str, len: u64) -> (r: Self)
        ensures
            r.url() == path@,
            r.size() == len,
            r.chunks() == announced_chunks(len),
            r.type_file() == extension_text(path@),
    {
        let ext = match extension_of(path) {
            Some(e) => e,
            None => String::new(),
        };
        let count: u64 = if len <= LARGE_FILE {
            1
        } else if len <= HUGE_FILE {
            len / CHUNK_SMALL_SLICE
        } else if len <= GIGA_FILE {
            len / CHUNK_SMALL_MEDIUM
        } else {
            0
        };
        assert(count <= 4096);
        JsonInfo { url: path.to_owned(), chunks: count as usize, size: len, type_file: ext }
    }

    pub fn get_url(&self) -> (r: &str)
        ensures
            r@ == self.url(),
    {
        self.url.as_str()
    }

    pub fn get_chunks(&self) -> (r: usize)
        ensures
            r == self.chunks(),
    {
        self.chunks
    }

    /// The header as JSON text.
    pub fn stringify(&self) -> (r: Result<String, serde_json::Error>)
        ensures
            r is Ok,
            r matches Ok(t) ==> t@ == json_info_text(self.url(), self.size(), self.chunks(), self.type_file()),
    {
        let url = json_quote(self.url.as_str())?;
        let type_file = json_quote(self.type_file.as_str())?;
        let mut text = String::from_str("{\"url\":");
        text.append(url.as_str());
        text.append(",\"size\":");
        text.append(u64_to_decimal(self.size).as_str());
        text.append(",\"chunks\":");
        text.append(u64_to_decimal(self.chunks as u64).as_str());
        text.append(",\"type_file\":");
        text.append(type_file.as_str());
        text.append("}");
        Ok(text)
    }

    /// The number of bytes of the header as JSON text.
    pub fn predict_header_capacity(&self) -> (r: Result<usize, serde_json::Error>)
        ensures
            r is Ok,
            r matches Ok(n) ==> n == vstd::utf8::encode_utf8(json_info_text(self.url(), self.size(), self.chunks(), self.type_file())).len() as usize,
    {
        let text = self.stringify()?;
        Ok(text.as_str().len())
    }
}

} // verus!

//! The fixed set of payload kinds and the table of their bytes.

use vstd::prelude::*;
use vstd::string::StringExecFns;

verus! {

/// One of the payload kinds that a download can name.
#[derive(Clone, Copy, Debug, PartialEq, Eq, Structural)]
pub enum FileTypeKey {
    Html,
    Txt,
    Png,
    Pdf,
    Svg,
    Xml,
    Webp,
    Avif,
    C,
}

/// How many payload kinds there are.
pub const FILE_TYPE_COUNT: usize = 9;

impl FileTypeKey {
    /// The name of the kind in a query (`ty=`), which is also its file extension.
    pub open spec fn name_spec(self) -> &'static str {
        match self {
            FileTypeKey::Html => "html",
            FileTypeKey::Txt => "txt",
            FileTypeKey::Png => "png",
            FileTypeKey::Pdf => "pdf",
            FileTypeKey::Svg => "svg",
            FileTypeKey::Xml => "xml",
            FileTypeKey::Webp => "webp",
            FileTypeKey::Avif => "avif",
            FileTypeKey::C => "c",
        }
    }

    /// The position of the kind in a payload table.
    pub open spec fn index_spec(self) -> int {
        match self {
            FileTypeKey::Html => 0,
            FileTypeKey::Txt => 1,
            FileTypeKey::Png => 2,
            FileTypeKey::Pdf => 3,
            FileTypeKey::Svg => 4,
            FileTypeKey::Xml => 5,
            FileTypeKey::Webp => 6,
            FileTypeKey::Avif => 7,
            FileTypeKey::C => 8,
        }
    }

    pub fn name(&self) -> (r: &'static str)
        ensures
            r == self.name_spec(),
    {
        match self {
            FileTypeKey::Html => "html",
            FileTypeKey::Txt => "txt",
            FileTypeKey::Png => "png",
            FileTypeKey::Pdf => "pdf",
            FileTypeKey::Svg => "svg",
            FileTypeKey::Xml => "xml",
            FileTypeKey::Webp => "webp",
            FileTypeKey::Avif => "avif",
            FileTypeKey::C => "c",
        }
    }

    pub fn index(&self) -> (r: usize)
        ensures
            r == self.index_spec(),
            r < FILE_TYPE_COUNT,
    {
        match self {
            FileTypeKey::Html => 0,
            FileTypeKey::Txt => 1,
            FileTypeKey::Png => 2,
            FileTypeKey::Pdf => 3,
            FileTypeKey::Svg => 4,
            FileTypeKey::Xml => 5,
            FileTypeKey::Webp => 6,
            FileTypeKey::Avif => 7,
            FileTypeKey::C => 8,
        }
    }

    /// Every kind, in table order.
    pub fn all() -> (r: Vec<FileTypeKey>)
        ensures
            r@.len() == FILE_TYPE_COUNT,
            forall|i: int| 0 <= i < r@.len() ==> (#[trigger] r@[i]).index_spec() == i,
    {
        vec![
            FileTypeKey::Html,
            FileTypeKey::Txt,
            FileTypeKey::Png,
            FileTypeKey::Pdf,
            FileTypeKey::Svg,
            FileTypeKey::Xml,
            FileTypeKey::Webp,
            FileTypeKey::Avif,
            FileTypeKey::C,
        ]
    }

    /// The file that the payload of this kind is loaded from:
    /// `files/example.<name>`.
    pub fn file_path(&self) -> (r: String)
        ensures
            r@ == "files/example."@ + self.name_spec()@,
    {
        String::from_str("files/example.").concat(self.name())
    }

    /// The kind named `name`, if any.
    pub fn from_name(name: &str) -> (r: Option<FileTypeKey>)
        ensures
            r == key_named(name@),
    {
        let s = name.to_owned();
        if s == String::from_str("html") {
            Some(FileTypeKey::Html)
        } else if s == String::from_str("txt") {
            Some(FileTypeKey::Txt)
        } else if s == String::from_str("png") {
            Some(FileTypeKey::Png)
        } else if s == String::from_str("pdf") {
            Some(FileTypeKey::Pdf)
        } else if s == String::from_str("svg") {
            Some(FileTypeKey::Svg)
        } else if s == String::from_str("xml") {
            Some(FileTypeKey::Xml)
        } else if s == String::from_str("webp") {
            Some(FileTypeKey::Webp)
        } else if s == String::from_str("avif") {
            Some(FileTypeKey::Avif)
        } else if s == String::from_str("c") {
            Some(FileTypeKey::C)
        } else {
            None
        }
    }
}

/// The kind whose name is `s`, if any.
pub open spec fn key_named(s: Seq<char>) -> Option<FileTypeKey> {
    if s == "html"@ {
        Some(FileTypeKey::Html)
    } else if s == "txt"@ {
        Some(FileTypeKey::Txt)
    } else if s == "png"@ {
        Some(FileTypeKey::Png)
    } else if s == "pdf"@ {
        Some(FileTypeKey::Pdf)
    } else if s == "svg"@ {
        Some(FileTypeKey::Svg)
    } else if s == "xml"@ {
        Some(FileTypeKey::Xml)
    } else if s == "webp"@ {
        Some(FileTypeKey::Webp)
    } else if s == "avif"@ {
        Some(FileTypeKey::Avif)
    } else if s == "c"@ {
        Some(FileTypeKey::C)
    } else {
        None
    }
}

/// The bytes of every payload kind, loaded once and never changed.
pub struct PayloadTable {
    payloads: Vec<Vec<u8>>,
}

impl View for PayloadTable {
    /// The payloads in table order (see `FileTypeKey::index_spec`).
    type V = Seq<Seq<u8>>;

    closed spec fn view(&self) -> Seq<Seq<u8>> {
        self.payloads@.map_values(|p: Vec<u8>| p@)
    }
}

impl PayloadTable {
    #[verifier::type_invariant]
    spec fn inv(self) -> bool {
        self.payloads@.len() == FILE_TYPE_COUNT
    }

    /// A table from one payload per kind, in table order; `None` unless there
    /// are exactly as many payloads as kinds.
    pub fn new(payloads: Vec<Vec<u8>>) -> (r: Option<PayloadTable>)
        ensures
            r is Some <==> payloads@.len() == FILE_TYPE_COUNT,
            r matches Some(t) ==> t@ == payloads@.map_values(|p: Vec<u8>| p@),
    {
        if payloads.len() == FILE_TYPE_COUNT {
            Some(PayloadTable { payloads })
        } else {
            None
        }
    }

    /// The payload of kind `key`.
    pub fn get(&self, key: FileTypeKey) -> (r: &Vec<u8>)
        ensures
            r@ == self@[key.index_spec()],
    {
        proof {
            use_type_invariant(self);
        }
        &self.payloads[key.index()]
    }
}

} // verus!

//! The tools that an agent may call: what each is called, how it describes
//! itself to a model, and what a call of it returns.

use crate::text::{optional_str_text, optional_text};
use vstd::prelude::*;
use vstd::string::*;

verus! {

/// The error of a tool call.
#[derive(Debug, Copy, Clone, PartialEq, Eq, Structural)]
pub struct CXError;

impl CXError {
    /// The sentence that describes this error.
    pub fn message(&self) -> (r: String)
        ensures
            r@ == "App error"@,
    {
        String::from_str("App error")
    }
}

/// A stored image as a mathematical value.
pub struct ImageRecord {
    pub url: Seq<char>,
    pub storage_path: Option<Seq<char>>,
    pub size: Option<u64>,
    pub mime_type: Option<Seq<char>>,
    pub hash: Option<Seq<char>>,
    pub description: Option<Seq<char>>,
}

/// A stored image: where it is, and what is known of it.
#[derive(Debug)]
pub struct CXImage {
    url: String,
    storage_path: Option<String>,
    size: Option<u64>,
    mime_type: Option<String>,
    hash: Option<String>,
    description: Option<String>,
}

impl View for CXImage {
    type V = ImageRecord;

    closed spec fn view(&self) -> ImageRecord {
        ImageRecord {
            url: self.url@,
            storage_path: optional_text(self.storage_path),
            size: self.size,
            mime_type: optional_text(self.mime_type),
            hash: optional_text(self.hash),
            description: optional_text(self.description),
        }
    }
}

impl CXImage {
    /// The image from its parts.
    pub fn new(
        url: String,
        storage_path: Option<String>,
        size: Option<u64>,
        mime_type: Option<String>,
        hash: Option<String>,
        description: Option<String>,
    ) -> (r: Self)
        ensures
            r@ == (ImageRecord {
                url: url@,
                storage_path: optional_text(storage_path),
                size,
                mime_type: optional_text(mime_type),
                hash: optional_text(hash),
                description: optional_text(description),
            }),
    {
        CXImage { url, storage_path, size, mime_type, hash, description }
    }

    /// Where the image is.
    pub fn url(&self) -> (r: &str)
        ensures
            r@ == self@.url,
    {
        self.url.as_str()
    }

    /// Where the image is stored, if known.
    pub fn storage_path(&self) -> (r: Option<&str>)
        ensures
            optional_str_text(r) == self@.storage_path,
    {
        match &self.storage_path {
            Some(s) => Some(s.as_str()),
            None => None,
        }
    }

    /// The size of the image in bytes, if known.
    pub fn size(&self) -> (r: Option<u64>)
        ensures
            r == self@.size,
    {
        self.size
    }

    /// The media type of the image, if known.
    pub fn mime_type(&self) -> (r: Option<&str>)
        ensures
            optional_str_text(r) == self@.mime_type,
    {
        match &self.mime_type {
            Some(s) => Some(s.as_str()),
            None => None,
        }
    }

    /// The hash of the image, if known.
    pub fn hash(&self) -> (r: Option<&str>)
        ensures
            optional_str_text(r) == self@.hash,
    {
        match &self.hash {
            Some(s) => Some(s.as_str()),
            None => None,
        }
    }

    /// What the image shows, if known.
    pub fn description(&self) -> (r: Option<&str>)
        ensures
            optional_str_text(r) == self@.description,
    {
        match &self.description {
            Some(s) => Some(s.as_str()),
            None => None,
        }
    }
}

/// The arguments of a tool that works on one thing: its identifier.
#[derive(Debug)]
pub struct IdArgs {
    id: String,
}

impl View for IdArgs {
    type V = Seq<char>;

    closed spec fn view(&self) -> Seq<char> {
        self.id@
    }
}

impl IdArgs {
    /// The arguments that name `id`.
    pub fn new(id: String) -> (r: Self)
        ensures
            r@ == id@,
    {
        IdArgs { id }
    }

    /// The identifier.
    pub fn id(&self) -> (r: &str)
        ensures
            r@ == self@,
    {
        self.id.as_str()
    }
}

/// How a tool presents itself to a model: its name, what it is for, and the
/// JSON schema of its arguments, as text.
#[derive(Debug)]
pub struct ToolDescription {
    pub name: String,
    pub description: String,
    pub parameters: String,
}

/// A tool description as a mathematical value.
pub struct ToolDescriptionText {
    pub name: Seq<char>,
    pub description: Seq<char>,
    pub parameters: Seq<char>,
}

impl View for ToolDescription {
    type V = ToolDescriptionText;

    open spec fn view(&self) -> ToolDescriptionText {
        ToolDescriptionText {
            name: self.name@,
            description: self.description@,
            parameters: self.parameters@,
        }
    }
}

/// The tool that describes a document.
#[derive(Debug, Copy, Clone, PartialEq, Eq, Structural)]
pub struct Descriptor;

impl Descriptor {
    /// The name of the tool.
    pub const NAME: &'static str = "descriptor";

    /// How the tool presents itself: it takes the identifier of a document. The
    /// prompt does not change the description.
    pub fn definition(&self, _prompt: String) -> (r: ToolDescription)
        ensures
            r@ == (ToolDescriptionText {
                name: "descriptor"@,
                description: "Descrip document by it ID"@,
                parameters: "{\"type\":\"object\",\"properties\":{\"id\":{\"type\":\"string\",\"description\":\"Id of the document to describe\"}},\"required\":[\"id\"]}"@,
            }),
    {
        ToolDescription {
            name: String::from_str("descriptor"),
            description: String::from_str("Descrip document by it ID"),
            parameters: String::from_str(
                "{\"type\":\"object\",\"properties\":{\"id\":{\"type\":\"string\",\"description\":\"Id of the document to describe\"}},\"required\":[\"id\"]}",
            ),
        }
    }

    /// A call of the tool: gives back the identifier that it was given.
    pub fn call(&self, args: IdArgs) -> (r: Result<String, CXError>)
        ensures
            r matches Ok(out) && out@ == args@,
    {
        Ok(args.id)
    }
}

/// The tool that finds images.
#[derive(Debug, Copy, Clone, PartialEq, Eq, Structural)]
pub struct ImageFinder;

impl ImageFinder {
    /// The name of the tool.
    pub const NAME: &'static str = "image_finder";

    /// How the tool presents itself: it takes an identifier to search by. The
    /// prompt does not change the description.
    pub fn definition(&self, _prompt: String) -> (r: ToolDescription)
        ensures
            r@ == (ToolDescriptionText {
                name: "image_finder"@,
                description: "Find images by query"@,
                parameters: "{\"type\":\"object\",\"properties\":{\"id\":{\"type\":\"string\",\"description\":\"Id to search for images\"}},\"required\":[\"id\"]}"@,
            }),
    {
        ToolDescription {
            name: String::from_str("image_finder"),
            description: String::from_str("Find images by query"),
            parameters: String::from_str(
                "{\"type\":\"object\",\"properties\":{\"id\":{\"type\":\"string\",\"description\":\"Id to search for images\"}},\"required\":[\"id\"]}",
            ),
        }
    }

    /// A call of the tool: whatever is asked for, the one image that is known,
    /// of which only the place is known.
    pub fn call(&self, args: &IdArgs) -> (r: Result<CXImage, CXError>)
        ensures
            r matches Ok(image) && image@ == (ImageRecord {
                url: "./data/2025-12-15.jpg"@,
                storage_path: None,
                size: None,
                mime_type: None,
                hash: None,
                description: None,
            }),
    {
        Ok(CXImage::new(String::from_str("./data/2025-12-15.jpg"), None, None, None, None, None))
    }
}

/// The tool for a prompt that asks for nothing that another tool offers.
#[derive(Debug, Copy, Clone, PartialEq, Eq, Structural)]
pub struct CXNothing;

impl CXNothing {
    /// The name of the tool.
    pub const NAME: &'static str = "nothing";

    /// How the tool presents itself: it takes no arguments. The prompt does not
    /// change the description.
    pub fn definition(&self, _prompt: String) -> (r: ToolDescription)
        ensures
            r@ == (ToolDescriptionText {
                name: "descriptor"@,
                description: "The default tool when there is no request for objects, buildings, structures, reports, images, videos, descriptions and comparisons.Always call this function if the parameters are not found."@,
                parameters: "{\"type\":\"object\",\"properties\":{}}"@,
            }),
    {
        ToolDescription {
            name: String::from_str("descriptor"),
            description: String::from_str(
                "The default tool when there is no request for objects, buildings, structures, reports, images, videos, descriptions and comparisons.Always call this function if the parameters are not found.",
            ),
            parameters: String::from_str("{\"type\":\"object\",\"properties\":{}}"),
        }
    }

    /// A call of the tool: the same answer whatever the arguments.
    pub fn call(&self, _args: String) -> (r: Result<String, CXError>)
        ensures
            r matches Ok(out) && out@ == "I am nobody!"@,
    {
        Ok(String::from_str("I am nobody!"))
    }
}

} // verus!

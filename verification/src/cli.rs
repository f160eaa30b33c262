use vstd::prelude::*;

verus! {

/// The arguments of the objects command group.
///
/// Flag parsing itself belongs to the console layer; these types carry
/// the parsed command into the client logic.
#[derive(Debug)]
pub struct ObjectsArgs {
    pub command: ObjectsCommand,
}

/// One object subcommand with its arguments. A properties document
/// arrives as the raw text the user typed; parsing it is the console
/// layer's concern, and a parse failure is a user-input error, not a
/// transport error.
#[derive(Debug)]
pub enum ObjectsCommand {
    /// List objects in a space.
    List { space_id: String, limit: Option<u32> },
    /// Get details of a specific object.
    Get { space_id: String, object_id: String },
    /// Create a new object in a space.
    Create {
        space_id: String,
        type_key: String,
        name: Option<String>,
        properties: Option<String>,
        template_id: Option<String>,
    },
    /// Update an existing object in a space.
    Update {
        space_id: String,
        object_id: String,
        name: Option<String>,
        properties: Option<String>,
    },
    /// Delete (archive) an object in a space.
    Delete { space_id: String, object_id: String },
}

} // verus!

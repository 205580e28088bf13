//! The command surface as plain data: what a parsed invocation asks for.
//! Parsing of actual command-line arguments lives outside the library; it
//! hands over values of these types.

use crate::git_object::ObjectType;
use vstd::prelude::*;

verus! {

/// A parsed invocation: the command to run.
#[derive(Debug)]
pub struct Cli {
    pub command: Commands,
}

/// Every command the tool knows; most are not implemented yet.
#[derive(Debug)]
pub enum Commands {
    /// Initialize a new repository.
    Init(InitCommand),
    Add(AddCommand),
    /// Print the raw contents of an object.
    CatFile(CatFileCommand),
    HashObject(HashObjectCommand),
    CheckIgnore,
    CheckOut,
    Commit,
    Log,
    LsFiles,
    LsTree,
    RevParse,
    Rm,
    ShowRef,
    Status,
    Tag,
}

/// The arguments of the init command.
#[derive(Debug)]
pub struct InitCommand {
    /// Paths to initialize (the first is used).
    pub path: Vec<String>,
}

/// The arguments of the cat-file command.
#[derive(Debug)]
pub struct CatFileCommand {
    /// Kind of object to print.
    pub object_type: ObjectType,
    /// Object hash or reference.
    pub object_hash_or_ref: String,
}

/// The arguments of the hash-object command.
#[derive(Debug)]
pub struct HashObjectCommand {
    /// Kind of object to hash.
    pub object_type: ObjectType,
    /// Whether to actually write the object into the object database.
    pub write: bool,
    /// Path of the file whose contents are hashed.
    pub path: String,
}

/// The arguments of the add command.
#[derive(Debug)]
pub struct AddCommand {
    pub action: AddAction,
}

/// What the add command is applied to.
#[derive(Debug, Clone, Copy, PartialEq, Eq, Structural)]
pub enum AddAction {
    All,
    File,
}

} // verus!

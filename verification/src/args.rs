//! What the program is given on the command line.

use vstd::prelude::*;

verus! {

/// The command line: one command with what it needs.
#[derive(Debug)]
pub struct MyArgs {
    pub commands: Commands,
}

/// The four commands.
#[derive(Debug)]
pub enum Commands {
    Encode(EncodeCommand),
    Decode(DecodeCommand),
    Remove(RemoveCommand),
    Print(PrintCommand),
}

/// Hide a message in a chunk of the given type at the end of an image.
#[derive(Debug)]
pub struct EncodeCommand {
    pub image_path: String,
    pub chunk_type: String,
    pub message: String,
    pub output_file: Option<String>,
}

/// Show the message in the first chunk of the given type.
#[derive(Debug)]
pub struct DecodeCommand {
    pub image_path: String,
    pub chunk_type: String,
}

/// Take the first chunk of the given type out of an image.
#[derive(Debug)]
pub struct RemoveCommand {
    pub image_path: String,
    pub chunk_type: String,
}

/// Describe the chunks of an image.
#[derive(Debug)]
pub struct PrintCommand {
    pub image_path: String,
}

impl Commands {
    /// The path of the image that the command works on.
    pub fn image_path(&self) -> (path: &String)
        ensures
            *path == match *self {
                Commands::Encode(c) => c.image_path,
                Commands::Decode(c) => c.image_path,
                Commands::Remove(c) => c.image_path,
                Commands::Print(c) => c.image_path,
            },
    {
        match self {
            Commands::Encode(c) => &c.image_path,
            Commands::Decode(c) => &c.image_path,
            Commands::Remove(c) => &c.image_path,
            Commands::Print(c) => &c.image_path,
        }
    }
}

impl EncodeCommand {
    /// The path of the file that receives the image with the message: the
    /// output file where one is named, else the image itself.
    pub fn destination(&self) -> (path: &String)
        ensures
            *path == match self.output_file {
                Some(p) => p,
                None => self.image_path,
            },
    {
        match &self.output_file {
            Some(p) => p,
            None => &self.image_path,
        }
    }
}

} // verus!

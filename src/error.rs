use vstd::prelude::*;

verus! {

/// Every way in which preparing a launch can fail.
pub enum LaunchError {
    /// The username is empty or holds whitespace.
    InvalidUsername(String),
    /// The instance name is empty, or no such instance directory exists.
    InstanceNotFound,
    /// An operating-system I/O failure, with the path it concerned.
    IoFailure { path: String, message: String },
    /// A configuration document could not be decoded.
    ConfigDecodeFailure(String),
    /// A path cannot be represented as a native string.
    PathEncodingFailure(String),
    /// The version metadata has neither argument form.
    MissingArgumentsField(String),
    /// The Java runtime could not be obtained.
    JavaInstallFailure(String),
    /// The operating system refused to start the game process.
    ProcessSpawnFailure(String),
}


impl LaunchError {
    /// The text shown to the user for this error.
    pub open spec fn message_spec(&self) -> Seq<char> {
        match self {
            LaunchError::InvalidUsername(u) => "invalid username: "@ + u@,
            LaunchError::InstanceNotFound => "instance not found"@,
            LaunchError::IoFailure { path, message } => "I/O error at "@ + path@ + ": "@
                + message@,
            LaunchError::ConfigDecodeFailure(m) => "could not decode configuration: "@ + m@,
            LaunchError::PathEncodingFailure(p) => "path cannot be represented: "@ + p@,
            LaunchError::MissingArgumentsField(id) => "version declares no arguments: "@ + id@,
            LaunchError::JavaInstallFailure(m) => "could not get Java: "@ + m@,
            LaunchError::ProcessSpawnFailure(m) => "could not start the game: "@ + m@,
        }
    }

    /// A human-readable description of the error.
    pub fn message(&self) -> (r: String)
        ensures
            r@ == self.message_spec(),
    {
        let (head, tail) = match self {
            LaunchError::InvalidUsername(u) => ("invalid username: ", u.as_str()),
            LaunchError::InstanceNotFound => ("instance not found", ""),
            LaunchError::IoFailure { path, message } => {
                let mut r = String::from_str("I/O error at ");
                r.append(path.as_str());
                r.append(": ");
                r.append(message.as_str());
                return r;
            },
            LaunchError::ConfigDecodeFailure(m) => ("could not decode configuration: ", m.as_str()),
            LaunchError::PathEncodingFailure(p) => ("path cannot be represented: ", p.as_str()),
            LaunchError::MissingArgumentsField(id) => ("version declares no arguments: ", id.as_str()),
            LaunchError::JavaInstallFailure(m) => ("could not get Java: ", m.as_str()),
            LaunchError::ProcessSpawnFailure(m) => ("could not start the game: ", m.as_str()),
        };
        let mut r = String::from_str(head);
        r.append(tail);
        proof {
            reveal_strlit("");
        }
        assert(r@ =~= self.message_spec());
        r
    }
}

} // verus!

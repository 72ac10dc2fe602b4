use vstd::prelude::*;

verus! {

/// The distinct failure points of the library: one variant per step that can
/// fail while connecting, executing a command, forwarding, uploading a file,
/// or disconnecting.
#[derive(Clone, Copy, PartialEq, Eq, Structural, Debug)]
pub enum ErrorKind {
    /// Loading the private key file failed.
    KeyLoad,
    /// Loading the certificate file failed.
    CertLoad,
    /// Dialing the remote host failed.
    Dial,
    /// The authentication exchange itself failed.
    Auth,
    /// The authentication exchange completed but reported no success.
    AuthRejected,
    /// Opening a channel on the session failed.
    ChannelOpen,
    /// Requesting execution of the command failed.
    ExecRequest,
    /// Reading the local file to upload failed.
    LocalFileRead,
    /// Requesting the file-transfer subsystem failed.
    SubsystemRequest,
    /// Establishing the file-transfer client session failed.
    SftpSession,
    /// Opening the remote file failed.
    RemoteOpen,
    /// Writing the remote file failed.
    RemoteWrite,
    /// Flushing the remote file failed.
    RemoteFlush,
    /// Closing the remote file handle failed.
    RemoteClose,
    /// The application-initiated close handshake failed.
    Disconnect,
    /// The given session id is not registered.
    UnknownSession,
    /// Binding the local forwarding port failed.
    Bind,
}

/// An error surfaced to the caller of one operation: the step that failed and
/// a human-readable message.
#[derive(Debug)]
pub struct SshError {
    pub kind: ErrorKind,
    pub message: String,
}

impl SshError {
    pub fn new(kind: ErrorKind, message: String) -> (e: SshError)
        ensures
            e.kind == kind,
            e.message@ == message@,
    {
        SshError { kind, message }
    }

    /// The error every operation raises when its session id is not registered.
    pub fn unknown_session() -> (e: SshError)
        ensures
            e.kind == ErrorKind::UnknownSession,
    {
        SshError { kind: ErrorKind::UnknownSession, message: "unknown session id".to_owned() }
    }

    pub fn kind(&self) -> (k: ErrorKind)
        ensures
            k == self.kind,
    {
        self.kind
    }
}

} // verus!

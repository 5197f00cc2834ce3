use vstd::prelude::*;

verus! {

/// A password as typed; it travels in login and registration requests.
pub struct Password(pub String);

/// A user the server reports as online, with the avatar it holds for them.
pub struct UserProfile {
    pub username: String,
    pub pfp: Option<String>,
}

/// The messages exchanged with the chat server.
pub enum ChatProtocol {
    Login { username: String, password: Password },
    Register { username: String, email: String, password: Password },
    Chat { user: String, msg: String, pfp: Option<String>, time: Option<String> },
    JoinChannel { channel: String },
    UserList { users: Vec<UserProfile> },
    PfpUpdate { pfp: String },
    System { msg: String },
    AuthResponse { success: bool, msg: String },
}

} // verus!

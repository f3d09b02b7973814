use vstd::prelude::*;

verus! {

/// One saved wireless network: its name, its pre-shared key, the file it was
/// read from and the connection's UUID. The last two are empty where the
/// source has none.
#[derive(Debug, Clone)]
pub struct WifiConfig {
    pub ssid: String,
    pub password: String,
    pub fname: String,
    pub uuid: String,
}

/// The abstract contents of a record: (ssid, password, file name, uuid).
pub type CredentialView = (Seq<char>, Seq<char>, Seq<char>, Seq<char>);

impl View for WifiConfig {
    type V = CredentialView;

    open spec fn view(&self) -> CredentialView {
        (self.ssid@, self.password@, self.fname@, self.uuid@)
    }
}

/// The abstract contents of a record that may be absent.
pub open spec fn opt_view(o: Option<WifiConfig>) -> Option<CredentialView> {
    match o {
        Some(c) => Some(c@),
        None => None,
    }
}

} // verus!

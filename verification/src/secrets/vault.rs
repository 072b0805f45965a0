//! The vault: secret files under `<root>/vault/`, agents' public keys under
//! `<root>/keys/`, and a policy naming the secrets that each agent may read.
//! An agent that the policy does not name may read nothing.
use vstd::prelude::*;
use crate::text::{join_path, path_join, same_chars, strings_view, trim, trimmed};

verus! {

/// Why a read was refused.
#[derive(Debug)]
pub enum PolicyError {
    Denied { agent: String, secret: String },
    NotFound(String),
}

/// [`PolicyError`] as characters.
pub enum PolicyErrorView {
    Denied { agent: Seq<char>, secret: Seq<char> },
    NotFound(Seq<char>),
}

impl View for PolicyError {
    type V = PolicyErrorView;

    open spec fn view(&self) -> PolicyErrorView {
        match self {
            PolicyError::Denied { agent, secret } => PolicyErrorView::Denied {
                agent: agent@,
                secret: secret@,
            },
            PolicyError::NotFound(name) => PolicyErrorView::NotFound(name@),
        }
    }
}

pub const DENIED_OPEN: &'static str = "access denied: agent '";

pub const DENIED_MIDDLE: &'static str = "' cannot read '";

pub const NOT_FOUND_OPEN: &'static str = "secret not found: '";

pub const QUOTE_CLOSE: &'static str = "'";

impl PolicyErrorView {
    /// The text that describes the error.
    pub open spec fn message(self) -> Seq<char> {
        match self {
            PolicyErrorView::Denied { agent, secret } => DENIED_OPEN@ + agent + DENIED_MIDDLE@
                + secret + QUOTE_CLOSE@,
            PolicyErrorView::NotFound(name) => NOT_FOUND_OPEN@ + name + QUOTE_CLOSE@,
        }
    }
}

impl PolicyError {
    /// The text that describes the error:
    /// `access denied: agent '<agent>' cannot read '<secret>'` or
    /// `secret not found: '<name>'`.
    pub fn message(&self) -> (m: String)
        ensures
            m@ == self@.message(),
    {
        match self {
            PolicyError::Denied { agent, secret } => {
                let mut m = DENIED_OPEN.to_owned();
                m.append(agent.as_str());
                m.append(DENIED_MIDDLE);
                m.append(secret.as_str());
                m.append(QUOTE_CLOSE);
                m
            },
            PolicyError::NotFound(name) => {
                let mut m = NOT_FOUND_OPEN.to_owned();
                m.append(name.as_str());
                m.append(QUOTE_CLOSE);
                m
            },
        }
    }
}

/// The secrets that one agent may read.
struct AgentPolicy {
    agent: String,
    allowed_secrets: Vec<String>,
}

/// The map that a list of entries stands for: a later entry for an agent
/// replaces an earlier one.
spec fn entries_map(e: Seq<AgentPolicy>) -> Map<Seq<char>, Seq<Seq<char>>>
    decreases e.len(),
{
    if e.len() == 0 {
        Map::empty()
    } else {
        entries_map(e.drop_last()).insert(e.last().agent@, strings_view(e.last().allowed_secrets@))
    }
}

/// Which agent may read which secrets.
pub struct Policy {
    entries: Vec<AgentPolicy>,
}

impl View for Policy {
    type V = Map<Seq<char>, Seq<Seq<char>>>;

    closed spec fn view(&self) -> Map<Seq<char>, Seq<Seq<char>>> {
        entries_map(self.entries@)
    }
}

/// If no entry from `i` on is for `agent`, the entries before `i` decide
/// what the map holds for it.
proof fn lemma_entries_prefix(e: Seq<AgentPolicy>, i: int, agent: Seq<char>)
    requires
        0 <= i <= e.len(),
        forall|k: int| i <= k < e.len() ==> e[k].agent@ != agent,
    ensures
        entries_map(e).contains_key(agent) == entries_map(e.take(i)).contains_key(agent),
        entries_map(e)[agent] == entries_map(e.take(i))[agent],
    decreases e.len() - i,
{
    if i < e.len() {
        assert(e.drop_last().take(i) =~= e.take(i));
        lemma_entries_prefix(e.drop_last(), i, agent);
    } else {
        assert(e.take(i) =~= e);
    }
}

impl Policy {
    /// A policy that lets no agent read anything.
    pub fn new() -> (p: Policy)
        ensures
            p@ == Map::<Seq<char>, Seq<Seq<char>>>::empty(),
    {
        Policy { entries: Vec::new() }
    }

    /// Lets `agent` read exactly `allowed_secrets`, in place of whatever the
    /// policy said of it before.
    pub fn insert_agent(&mut self, agent: String, allowed_secrets: Vec<String>)
        ensures
            final(self)@ == old(self)@.insert(agent@, strings_view(allowed_secrets@)),
    {
        let ghost before = self.entries@;
        self.entries.push(AgentPolicy { agent, allowed_secrets });
        assert(self.entries@.drop_last() =~= before);
    }

    /// The secrets that `agent` may read, if the policy names it.
    pub fn allowed_secrets(&self, agent: &str) -> (r: Option<&Vec<String>>)
        ensures
            match r {
                Some(v) => self@.contains_key(agent@) && strings_view(v@) == self@[agent@],
                None => !self@.contains_key(agent@),
            },
    {
        let mut i = self.entries.len();
        while i > 0
            invariant
                i <= self.entries@.len(),
                forall|k: int| i <= k < self.entries@.len() ==> self.entries@[k].agent@ != agent@,
            decreases i,
        {
            let entry = &self.entries[i - 1];
            if same_chars(entry.agent.as_str(), agent) {
                proof {
                    lemma_entries_prefix(self.entries@, i as int, agent@);
                    assert(self.entries@.take(i as int).drop_last() =~= self.entries@.take(i - 1));
                }
                return Some(&entry.allowed_secrets);
            }
            i = i - 1;
        }
        proof {
            lemma_entries_prefix(self.entries@, 0, agent@);
        }
        None
    }

    /// Whether the policy lets `agent` read `secret`.
    pub fn allows(&self, agent: &str, secret: &str) -> (b: bool)
        ensures
            b == allows(self@, agent@, secret@),
    {
        match self.allowed_secrets(agent) {
            None => false,
            Some(names) => {
                let mut i: usize = 0;
                while i < names.len()
                    invariant
                        i <= names@.len(),
                        self@.contains_key(agent@),
                        strings_view(names@) == self@[agent@],
                        forall|k: int| 0 <= k < i ==> names@[k]@ != secret@,
                    decreases names@.len() - i,
                {
                    if same_chars(names[i].as_str(), secret) {
                        assert(strings_view(names@)[i as int] == secret@);
                        assert(strings_view(names@).contains(secret@));
                        return true;
                    }
                    i = i + 1;
                }
                assert(!strings_view(names@).contains(secret@));
                false
            },
        }
    }
}

/// `policy` names `agent` and lists `secret` among what it may read.
pub open spec fn allows(policy: Map<Seq<char>, Seq<Seq<char>>>, agent: Seq<char>, secret: Seq<char>) -> bool {
    policy.contains_key(agent) && policy[agent].contains(secret)
}

/// The directory under the root that holds the secrets.
pub const VAULT_DIR: &'static str = "vault";

/// The directory under the root that holds the agents' public keys.
pub const KEYS_DIR: &'static str = "keys";

/// Ends the file name of an agent's public key.
pub const PUBLIC_KEY_SUFFIX: &'static str = ".pub";

/// Where the secret `secret` is kept in a vault rooted at `root`.
pub open spec fn secret_file(root: Seq<char>, secret: Seq<char>) -> Seq<char> {
    join_path(join_path(root, VAULT_DIR@), secret)
}

/// Where the public key of `agent` is kept in a vault rooted at `root`.
pub open spec fn public_key_file(root: Seq<char>, agent: Seq<char>) -> Seq<char> {
    join_path(join_path(root, KEYS_DIR@), agent + PUBLIC_KEY_SUFFIX@)
}

/// What reading a secret gives: its content, or `NotFound` when the file
/// could not be read.
pub open spec fn secret_outcome(secret: Seq<char>, content: Option<Seq<char>>) -> Result<
    Seq<char>,
    PolicyErrorView,
> {
    match content {
        Some(c) => Ok(c),
        None => Err(PolicyErrorView::NotFound(secret)),
    }
}

/// The characters of an optional string.
pub open spec fn option_view(o: Option<String>) -> Option<Seq<char>> {
    match o {
        Some(s) => Some(s@),
        None => None,
    }
}

/// The view of the outcome of a read.
pub open spec fn result_view(r: Result<String, PolicyError>) -> Result<Seq<char>, PolicyErrorView> {
    match r {
        Ok(s) => Ok(s@),
        Err(e) => Err(e@),
    }
}

/// How an access to a secret is counted and logged.
#[derive(Clone, Copy, Debug, PartialEq, Eq, Structural)]
pub enum SecretAccess {
    Granted,
    Denied,
}

pub const GRANTED_LABEL: &'static str = "granted";

pub const DENIED_LABEL: &'static str = "denied";

impl SecretAccess {
    /// The label under which the access is counted and logged.
    pub open spec fn label_view(self) -> Seq<char> {
        match self {
            SecretAccess::Granted => GRANTED_LABEL@,
            SecretAccess::Denied => DENIED_LABEL@,
        }
    }

    /// The label under which the access is counted and logged: `granted` or
    /// `denied`.
    pub fn label(&self) -> (l: &'static str)
        ensures
            l@ == self.label_view(),
    {
        match self {
            SecretAccess::Granted => GRANTED_LABEL,
            SecretAccess::Denied => DENIED_LABEL,
        }
    }
}

/// The access that a request by `agent` for `secret` is counted as before the
/// secret's file is read: a refusal counts as denied; an allowed request is
/// not counted yet.
pub open spec fn access_before_read(policy: Map<Seq<char>, Seq<Seq<char>>>, agent: Seq<char>, secret: Seq<char>) -> Option<SecretAccess> {
    if allows(policy, agent, secret) {
        None
    } else {
        Some(SecretAccess::Denied)
    }
}

/// The access that an allowed request is counted as once the secret's file
/// has been read: granted when it could be read, not counted when it could
/// not.
pub open spec fn access_after_read(content: Option<Seq<char>>) -> Option<SecretAccess> {
    match content {
        Some(_) => Some(SecretAccess::Granted),
        None => None,
    }
}

/// A vault rooted at a directory, with the policy that guards it.
pub struct Vault {
    root: String,
    policy: Policy,
}

impl Vault {
    /// The directory that holds the vault.
    pub closed spec fn root_view(&self) -> Seq<char> {
        self.root@
    }

    /// Which agent may read which secrets.
    pub closed spec fn policy_view(&self) -> Map<Seq<char>, Seq<Seq<char>>> {
        self.policy@
    }

    /// The vault rooted at `root` and guarded by `policy`.
    pub fn new(root: &str, policy: Policy) -> (v: Vault)
        ensures
            v.root_view() == root@,
            v.policy_view() == policy@,
    {
        Vault { root: root.to_owned(), policy }
    }

    /// Refuses `agent` the secret `secret` unless the policy names the agent
    /// and lists the secret for it.
    pub fn check_access(&self, agent: &str, secret: &str) -> (r: Result<(), PolicyError>)
        ensures
            r is Ok <==> allows(self.policy_view(), agent@, secret@),
            r matches Err(e) ==> e@ == (PolicyErrorView::Denied { agent: agent@, secret: secret@ }),
    {
        if self.policy.allows(agent, secret) {
            Ok(())
        } else {
            Err(PolicyError::Denied { agent: agent.to_owned(), secret: secret.to_owned() })
        }
    }

    /// How `agent`'s request for `secret` is counted before any file is read.
    pub fn access_before_read(&self, agent: &str, secret: &str) -> (a: Option<SecretAccess>)
        ensures
            a == access_before_read(self.policy_view(), agent@, secret@),
    {
        if self.policy.allows(agent, secret) {
            None
        } else {
            Some(SecretAccess::Denied)
        }
    }

    /// How an allowed request is counted once the secret's file has been
    /// read (`content`: what it holds, `None` when it could not be read).
    pub fn access_after_read(content: &Option<String>) -> (a: Option<SecretAccess>)
        ensures
            a == access_after_read(option_view(*content)),
    {
        match content {
            Some(_) => Some(SecretAccess::Granted),
            None => None,
        }
    }

    /// Where the secret `secret` is kept: `<root>/vault/<secret>`.
    pub fn secret_path(&self, secret: &str) -> (p: String)
        ensures
            p@ == secret_file(self.root_view(), secret@),
    {
        let dir = path_join(self.root.as_str(), VAULT_DIR);
        path_join(dir.as_str(), secret)
    }

    /// The file to read for `agent`'s request of `secret`, if the policy lets
    /// it read the secret; `Denied` otherwise.
    pub fn authorize_read(&self, agent: &str, secret: &str) -> (r: Result<String, PolicyError>)
        ensures
            r is Ok <==> allows(self.policy_view(), agent@, secret@),
            r matches Ok(p) ==> p@ == secret_file(self.root_view(), secret@),
            r matches Err(e) ==> e@ == (PolicyErrorView::Denied { agent: agent@, secret: secret@ }),
    {
        match self.check_access(agent, secret) {
            Ok(()) => Ok(self.secret_path(secret)),
            Err(e) => Err(e),
        }
    }

    /// What a read of the secret `secret` gives, from the file's content or
    /// `None` when it could not be read.
    pub fn secret_content(secret: &str, content: Option<String>) -> (r: Result<String, PolicyError>)
        ensures
            result_view(r) == secret_outcome(secret@, option_view(content)),
    {
        match content {
            Some(c) => Ok(c),
            None => Err(PolicyError::NotFound(secret.to_owned())),
        }
    }

    /// Where the public key of `agent` is kept: `<root>/keys/<agent>.pub`.
    pub fn public_key_path(&self, agent: &str) -> (p: String)
        ensures
            p@ == public_key_file(self.root_view(), agent@),
    {
        let dir = path_join(self.root.as_str(), KEYS_DIR);
        let mut file = agent.to_owned();
        file.append(PUBLIC_KEY_SUFFIX);
        path_join(dir.as_str(), file.as_str())
    }

    /// The public key held in a key file: its content without leading and
    /// trailing whitespace.
    pub fn public_key_from_file(content: &str) -> (key: String)
        ensures
            key@ == trim(content@),
    {
        trimmed(content)
    }
}

} // verus!

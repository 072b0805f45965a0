//! The secrets service that one agent talks to.
//!
//! A request for a secret is answered in steps, each of which ends in an
//! action for the caller to perform (read a file, encrypt) or in the reply.
//! The reply is the secret, encrypted with the agent's public key and
//! written in base64, or a message that says why it was refused.
use vstd::prelude::*;
use crate::secrets::encoding::{base64_len, base64_standard, encode_base64};
use crate::secrets::vault::{
    allows,
    option_view,
    public_key_file,
    secret_file,
    PolicyError,
    PolicyErrorView,
    SecretAccess,
    Vault,
    access_before_read,
};
use crate::text::{join, join_strings, strings_view, trim};

verus! {

/// The secrets service for one agent: it knows which agent is calling.
pub struct SecretsVaultServer {
    vault: Vault,
    agent_name: String,
}

/// What the caller is to do next for a request of a secret.
pub enum GetSecretAction {
    /// Read the file at `path` and report its content, or that it could not
    /// be read.
    ReadSecret { path: String },
    /// Read the agent's public key from the file at `path`; keep the secret
    /// `plaintext` for the next step.
    ReadPublicKey { path: String, plaintext: String },
    /// Encrypt `plaintext` for the holder of `public_key`.
    Encrypt { plaintext: String, public_key: String },
    /// Answer the request.
    Reply(Result<String, String>),
}

/// [`GetSecretAction`] as characters.
pub enum GetSecretActionView {
    ReadSecret { path: Seq<char> },
    ReadPublicKey { path: Seq<char>, plaintext: Seq<char> },
    Encrypt { plaintext: Seq<char>, public_key: Seq<char> },
    Reply(Result<Seq<char>, Seq<char>>),
}

impl View for GetSecretAction {
    type V = GetSecretActionView;

    open spec fn view(&self) -> GetSecretActionView {
        match self {
            GetSecretAction::ReadSecret { path } => GetSecretActionView::ReadSecret { path: path@ },
            GetSecretAction::ReadPublicKey { path, plaintext } => GetSecretActionView::ReadPublicKey {
                path: path@,
                plaintext: plaintext@,
            },
            GetSecretAction::Encrypt { plaintext, public_key } => GetSecretActionView::Encrypt {
                plaintext: plaintext@,
                public_key: public_key@,
            },
            GetSecretAction::Reply(Ok(s)) => GetSecretActionView::Reply(Ok(s@)),
            GetSecretAction::Reply(Err(e)) => GetSecretActionView::Reply(Err(e@)),
        }
    }
}

pub const KEY_ERROR_OPEN: &'static str = "public key not found for ";

pub const KEY_ERROR_MIDDLE: &'static str = ": ";

pub const ENCRYPTION_ERROR_OPEN: &'static str = "encryption failed: ";

pub const PROMPT_HEAD: &'static str = "You have the following tools available:\n\n1. get_secret(name: string) -> string\n   Fetches a secret by name. Returns the value age-encrypted with your public key.\n   Decrypt with: echo \"<value>\" | base64 -d | age --decrypt -i ~/.agent-store/";

pub const PROMPT_MIDDLE: &'static str = "/agent.key\n\n2. send_to_agent(agent: string, message: string) -> string\n   Sends a message to another agent and waits for its response.\n   Available agents: ";

pub const PROMPT_TAIL: &'static str = "\n";

/// The first step of a request by `agent` for the secret `name`: read the
/// secret's file if the policy allows, refuse otherwise.
pub open spec fn start_step(root: Seq<char>, policy: Map<Seq<char>, Seq<Seq<char>>>, agent: Seq<char>, name: Seq<char>) -> GetSecretActionView {
    if allows(policy, agent, name) {
        GetSecretActionView::ReadSecret { path: secret_file(root, name) }
    } else {
        GetSecretActionView::Reply(
            Err((PolicyErrorView::Denied { agent: agent, secret: name }).message()),
        )
    }
}

/// The step after the secret's file was read (`None`: it could not be).
pub open spec fn secret_read_step(root: Seq<char>, agent: Seq<char>, name: Seq<char>, content: Option<Seq<char>>) -> GetSecretActionView {
    match content {
        None => GetSecretActionView::Reply(Err(PolicyErrorView::NotFound(name).message())),
        Some(c) => GetSecretActionView::ReadPublicKey {
            path: public_key_file(root, agent),
            plaintext: c,
        },
    }
}

/// The step after the agent's key file was read (`Err`: why it could not
/// be).
pub open spec fn key_read_step(agent: Seq<char>, plaintext: Seq<char>, key_file: Result<Seq<char>, Seq<char>>) -> GetSecretActionView {
    match key_file {
        Err(e) => GetSecretActionView::Reply(
            Err(KEY_ERROR_OPEN@ + agent + KEY_ERROR_MIDDLE@ + e),
        ),
        Ok(k) => GetSecretActionView::Encrypt { plaintext: plaintext, public_key: trim(k) },
    }
}

/// The step after encryption (`Err`: why it failed).
pub open spec fn encrypted_step(ciphertext: Result<Seq<u8>, Seq<char>>) -> GetSecretActionView {
    match ciphertext {
        Err(e) => GetSecretActionView::Reply(Err(ENCRYPTION_ERROR_OPEN@ + e)),
        Ok(b) => GetSecretActionView::Reply(Ok(base64_standard(b))),
    }
}

/// The prompt that tells `agent` which tools it has and which agents it can
/// reach.
pub open spec fn prompt(agent: Seq<char>, agents: Seq<Seq<char>>) -> Seq<char> {
    PROMPT_HEAD@ + agent + PROMPT_MIDDLE@ + join(agents, ", "@) + PROMPT_TAIL@
}

impl SecretsVaultServer {
    /// The vault that the service reads.
    pub closed spec fn vault(&self) -> Vault {
        self.vault
    }

    /// The agent that is calling.
    pub closed spec fn agent(&self) -> Seq<char> {
        self.agent_name@
    }

    /// The service for `agent_name` over `vault`.
    pub fn new(vault: Vault, agent_name: &str) -> (s: Self)
        ensures
            s.vault() == vault,
            s.agent() == agent_name@,
    {
        SecretsVaultServer { vault, agent_name: agent_name.to_owned() }
    }

    /// The name of the calling agent.
    pub fn agent_name(&self) -> (name: &str)
        ensures
            name@ == self.agent(),
    {
        self.agent_name.as_str()
    }

    /// Begins the request of the calling agent for the secret `secret_name`.
    pub fn start_get_secret(&self, secret_name: &str) -> (a: GetSecretAction)
        ensures
            a@ == start_step(self.vault().root_view(), self.vault().policy_view(), self.agent(), secret_name@),
    {
        match self.vault.authorize_read(self.agent_name.as_str(), secret_name) {
            Ok(path) => GetSecretAction::ReadSecret { path },
            Err(e) => GetSecretAction::Reply(Err(e.message())),
        }
    }

    /// Continues the request for `secret_name` once its file has been read
    /// (`content`: what it holds, `None` when it could not be read).
    pub fn after_secret_read(&self, secret_name: &str, content: Option<String>) -> (a: GetSecretAction)
        ensures
            a@ == secret_read_step(self.vault().root_view(), self.agent(), secret_name@, option_view(content)),
    {
        match Vault::secret_content(secret_name, content) {
            Ok(plaintext) => GetSecretAction::ReadPublicKey {
                path: self.vault.public_key_path(self.agent_name.as_str()),
                plaintext,
            },
            Err(e) => GetSecretAction::Reply(Err(e.message())),
        }
    }

    /// Continues the request once the agent's key file has been read
    /// (`key_file`: its content, or why it could not be read).
    pub fn after_public_key_read(&self, plaintext: String, key_file: Result<String, String>) -> (a: GetSecretAction)
        ensures
            a@ == key_read_step(self.agent(), plaintext@, match key_file { Ok(k) => Ok(k@), Err(e) => Err(e@) }),
    {
        match key_file {
            Ok(k) => GetSecretAction::Encrypt {
                plaintext,
                public_key: Vault::public_key_from_file(k.as_str()),
            },
            Err(e) => {
                let mut m = KEY_ERROR_OPEN.to_owned();
                m.append(self.agent_name.as_str());
                m.append(KEY_ERROR_MIDDLE);
                m.append(e.as_str());
                GetSecretAction::Reply(Err(m))
            },
        }
    }

    /// Ends the request once the secret has been encrypted (`ciphertext`: the
    /// encrypted bytes, or why encryption failed).
    pub fn after_encryption(ciphertext: Result<Vec<u8>, String>) -> (a: GetSecretAction)
        requires
            ciphertext matches Ok(b) ==> base64_len(b@.len()) <= usize::MAX,
        ensures
            a@ == encrypted_step(match ciphertext { Ok(b) => Ok(b@), Err(e) => Err(e@) }),
    {
        match ciphertext {
            Ok(b) => GetSecretAction::Reply(Ok(encode_base64(b.as_slice()))),
            Err(e) => {
                let mut m = ENCRYPTION_ERROR_OPEN.to_owned();
                m.append(e.as_str());
                GetSecretAction::Reply(Err(m))
            },
        }
    }

    /// How the calling agent's request for `secret_name` is counted before
    /// any file is read: denied when refused, not yet counted otherwise.
    pub fn access_before_read(&self, secret_name: &str) -> (a: Option<SecretAccess>)
        ensures
            a == access_before_read(self.vault().policy_view(), self.agent(), secret_name@),
    {
        self.vault.access_before_read(self.agent_name.as_str(), secret_name)
    }

    /// Whether the request's duration is recorded once encryption is over:
    /// exactly when it succeeded.
    pub fn records_duration(ciphertext: &Result<Vec<u8>, String>) -> (b: bool)
        ensures
            b == ciphertext is Ok,
    {
        ciphertext.is_ok()
    }

    /// The part of the agent's system prompt that describes its tools and
    /// lists `available_agents`, separated by `, `.
    pub fn system_prompt(&self, available_agents: &[String]) -> (p: String)
        ensures
            p@ == prompt(self.agent(), strings_view(available_agents@)),
    {
        let agents_list = join_strings(available_agents, ", ");
        let mut p = PROMPT_HEAD.to_owned();
        p.append(self.agent_name.as_str());
        p.append(PROMPT_MIDDLE);
        p.append(agents_list.as_str());
        p.append(PROMPT_TAIL);
        p
    }
}

} // verus!

//! What holds of every request for a secret, across the steps that answer it.
use vstd::prelude::*;
use crate::secrets::encoding::{base64_len, base64_standard};
use crate::secrets::mcp_server::{
    encrypted_step,
    key_read_step,
    prompt,
    secret_read_step,
    PROMPT_HEAD,
    PROMPT_MIDDLE,
    PROMPT_TAIL,
    start_step,
    GetSecretActionView,
};
use crate::secrets::vault::{
    access_after_read,
    access_before_read,
    allows,
    public_key_file,
    secret_file,
    secret_outcome,
    PolicyErrorView,
    SecretAccess,
};
use crate::text::{join, law_join_adds_separator_and_part, law_join_holds_each_part, law_join_of_one_and_none, trim};

verus! {

/// The reply to a request by `agent` for the secret `name`, when the caller
/// performs each action that the steps ask for and the outside world answers
/// with `content` (the secret's file), `key_file` (the agent's key file) and
/// `ciphertext` (the encryption).
pub open spec fn get_secret_reply(
    root: Seq<char>,
    policy: Map<Seq<char>, Seq<Seq<char>>>,
    agent: Seq<char>,
    name: Seq<char>,
    content: Option<Seq<char>>,
    key_file: Result<Seq<char>, Seq<char>>,
    ciphertext: Result<Seq<u8>, Seq<char>>,
) -> Result<Seq<char>, Seq<char>> {
    match start_step(root, policy, agent, name) {
        GetSecretActionView::Reply(r) => r,
        _ => match secret_read_step(root, agent, name, content) {
            GetSecretActionView::Reply(r) => r,
            GetSecretActionView::ReadPublicKey { plaintext, .. } => match key_read_step(
                agent,
                plaintext,
                key_file,
            ) {
                GetSecretActionView::Reply(r) => r,
                _ => match encrypted_step(ciphertext) {
                    GetSecretActionView::Reply(r) => r,
                    _ => Err(Seq::empty()),
                },
            },
            _ => Err(Seq::empty()),
        },
    }
}

/// An agent gets a secret only if the policy lets it read that secret, the
/// secret's file, its key file and the encryption all succeeded; what it gets
/// is the ciphertext in base64.
pub proof fn law_secret_released_only_when_allowed(
    root: Seq<char>,
    policy: Map<Seq<char>, Seq<Seq<char>>>,
    agent: Seq<char>,
    name: Seq<char>,
    content: Option<Seq<char>>,
    key_file: Result<Seq<char>, Seq<char>>,
    ciphertext: Result<Seq<u8>, Seq<char>>,
)
    requires
        get_secret_reply(root, policy, agent, name, content, key_file, ciphertext) is Ok,
    ensures
        allows(policy, agent, name),
        content is Some,
        key_file is Ok,
        ciphertext is Ok,
        get_secret_reply(root, policy, agent, name, content, key_file, ciphertext) == Ok::<
            Seq<char>,
            Seq<char>,
        >(base64_standard(ciphertext->Ok_0)),
{
}

/// A request that the policy does not allow is refused at once, with a
/// message that names the agent and the secret; no file is read for it.
pub proof fn law_refused_before_any_read(
    root: Seq<char>,
    policy: Map<Seq<char>, Seq<Seq<char>>>,
    agent: Seq<char>,
    name: Seq<char>,
)
    requires
        !allows(policy, agent, name),
    ensures
        start_step(root, policy, agent, name) == GetSecretActionView::Reply(
            Err((PolicyErrorView::Denied { agent: agent, secret: name }).message()),
        ),
{
}

/// An allowed request reads the secret's own file, then the calling agent's
/// own key file, and encrypts exactly the secret's content for exactly the
/// key that the file holds, without surrounding whitespace.
pub proof fn law_allowed_request_uses_own_files(
    root: Seq<char>,
    policy: Map<Seq<char>, Seq<Seq<char>>>,
    agent: Seq<char>,
    name: Seq<char>,
    content: Seq<char>,
    key: Seq<char>,
)
    requires
        allows(policy, agent, name),
    ensures
        start_step(root, policy, agent, name) == (GetSecretActionView::ReadSecret {
            path: secret_file(root, name),
        }),
        secret_read_step(root, agent, name, Some(content)) == (GetSecretActionView::ReadPublicKey {
            path: public_key_file(root, agent),
            plaintext: content,
        }),
        key_read_step(agent, content, Ok(key)) == (GetSecretActionView::Encrypt {
            plaintext: content,
            public_key: trim(key),
        }),
{
}

/// Letting an agent read a list of secrets decides what that agent may read
/// and changes nothing for any other agent.
pub proof fn law_policy_entry_replaces(
    policy: Map<Seq<char>, Seq<Seq<char>>>,
    agent: Seq<char>,
    allowed: Seq<Seq<char>>,
    other: Seq<char>,
    secret: Seq<char>,
)
    ensures
        allows(policy.insert(agent, allowed), other, secret) == if other == agent {
            allowed.contains(secret)
        } else {
            allows(policy, other, secret)
        },
{
}

/// An agent that the policy does not name may read nothing.
pub proof fn law_unknown_agent_reads_nothing(
    policy: Map<Seq<char>, Seq<Seq<char>>>,
    agent: Seq<char>,
    secret: Seq<char>,
)
    requires
        !policy.contains_key(agent),
    ensures
        !allows(policy, agent, secret),
{
}

/// A request that the policy allows, whose secret file and key file were
/// read and whose encryption succeeded, is always answered with the
/// ciphertext in base64, whatever its size: four characters for every three
/// bytes begun.
pub proof fn law_granted_request_is_answered(
    root: Seq<char>,
    policy: Map<Seq<char>, Seq<Seq<char>>>,
    agent: Seq<char>,
    name: Seq<char>,
    content: Seq<char>,
    key: Seq<char>,
    ciphertext: Seq<u8>,
)
    requires
        allows(policy, agent, name),
    ensures
        get_secret_reply(root, policy, agent, name, Some(content), Ok(key), Ok(ciphertext)) == Ok::<
            Seq<char>,
            Seq<char>,
        >(base64_standard(ciphertext)),
        base64_standard(ciphertext).len() == base64_len(ciphertext.len()),
{
    law_base64_length(ciphertext);
}

/// Base64 text has four characters for every three bytes begun.
pub proof fn law_base64_length(bytes: Seq<u8>)
    ensures
        base64_standard(bytes).len() == base64_len(bytes.len()),
    decreases bytes.len(),
{
    if bytes.len() >= 3 {
        law_base64_length(bytes.skip(3));
    }
}

/// A secret whose file was read comes back exactly as the file holds it, and
/// that same text is what an allowed request goes on to encrypt.
pub proof fn law_secret_content_unchanged(
    root: Seq<char>,
    agent: Seq<char>,
    name: Seq<char>,
    content: Seq<char>,
)
    ensures
        secret_outcome(name, Some(content)) == Ok::<Seq<char>, PolicyErrorView>(content),
        secret_read_step(root, agent, name, Some(content)) matches GetSecretActionView::ReadPublicKey {
            plaintext,
            ..
        } && secret_outcome(name, Some(content)) == Ok::<Seq<char>, PolicyErrorView>(plaintext),
{
}

/// How a request by `agent` for the secret `name` is counted, once at most:
/// the count before the read if there is one, else the count after it.
pub open spec fn counted_access(
    policy: Map<Seq<char>, Seq<Seq<char>>>,
    agent: Seq<char>,
    name: Seq<char>,
    content: Option<Seq<char>>,
) -> Option<SecretAccess> {
    match access_before_read(policy, agent, name) {
        Some(a) => Some(a),
        None => access_after_read(content),
    }
}

/// A request is counted as denied exactly when the policy refuses it, and as
/// granted exactly when the policy allows it and the secret's file was read;
/// an allowed request whose file could not be read is not counted.
pub proof fn law_access_counted_once(
    policy: Map<Seq<char>, Seq<Seq<char>>>,
    agent: Seq<char>,
    name: Seq<char>,
    content: Option<Seq<char>>,
)
    ensures
        (counted_access(policy, agent, name, content) == Some(SecretAccess::Denied)) == !allows(
            policy,
            agent,
            name,
        ),
        (counted_access(policy, agent, name, content) == Some(SecretAccess::Granted)) == (allows(
            policy,
            agent,
            name,
        ) && content is Some),
{
}

/// Each available agent is named in the prompt, and so is the calling agent.
pub proof fn law_prompt_names_every_agent(agent: Seq<char>, agents: Seq<Seq<char>>, i: int)
    requires
        0 <= i < agents.len(),
    ensures
        exists|k: int|
            0 <= k && k + agents[i].len() <= prompt(agent, agents).len() && #[trigger] prompt(
                agent,
                agents,
            ).subrange(k, k + agents[i].len()) == agents[i],
        exists|k: int|
            0 <= k && k + agent.len() <= prompt(agent, agents).len() && #[trigger] prompt(agent, agents).subrange(
                k,
                k + agent.len(),
            ) == agent,
{
    let j = join(agents, ", "@);
    let head = PROMPT_HEAD@ + agent + PROMPT_MIDDLE@;
    let p = prompt(agent, agents);
    assert(p =~= head + j + PROMPT_TAIL@);
    law_join_holds_each_part(agents, ", "@, i);
    let k = choose|k: int|
        0 <= k && k + agents[i].len() <= j.len() && #[trigger] j.subrange(k, k + agents[i].len()) == agents[i];
    let at = head.len() + k;
    assert(p.subrange(at, at + agents[i].len()) =~= j.subrange(k, k + agents[i].len()));
    let a = PROMPT_HEAD@.len() as int;
    assert(p.subrange(a, a + agent.len()) =~= agent);
}

/// Making one more agent available adds `, ` and its name at the end of the
/// list, just before the closing newline; the first one is added without
/// the `, `.
pub proof fn law_prompt_adding_agent(agent: Seq<char>, agents: Seq<Seq<char>>, other: Seq<char>)
    ensures
        prompt(agent, agents).last() == '\n',
        agents.len() > 0 ==> prompt(agent, agents.push(other)) == prompt(agent, agents).drop_last() + ", "@
            + other + "\n"@,
        agents.len() == 0 ==> prompt(agent, agents.push(other)) == prompt(agent, agents).drop_last() + other
            + "\n"@,
{
    reveal_strlit("\n");
    let head = PROMPT_HEAD@ + agent + PROMPT_MIDDLE@;
    assert(PROMPT_TAIL@ =~= "\n"@);
    assert(prompt(agent, agents).drop_last() =~= head + join(agents, ", "@));
    if agents.len() > 0 {
        law_join_adds_separator_and_part(agents, ", "@, other);
        assert(prompt(agent, agents.push(other)) =~= prompt(agent, agents).drop_last() + ", "@ + other + "\n"@);
    } else {
        assert(agents.push(other) =~= seq![other]);
        law_join_of_one_and_none(other, ", "@);
        assert(prompt(agent, agents.push(other)) =~= prompt(agent, agents).drop_last() + other + "\n"@);
    }
}

} // verus!

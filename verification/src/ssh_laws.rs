//! What holds of every call of `ssh`: how a node is logged in to, and what the code
//! with which a command ends comes to.

use vstd::prelude::*;
use crate::config::NodeInfo;
use crate::ssh::{judged, CommandOutput, Judge, SshCall};
use crate::text::texts;

verus! {

/// A node is logged in to in the one way that it is configured for: the password is
/// handed over exactly where a password is asked for, the key is named exactly where a
/// key is used and has a path, and never are both. The account comes before the key,
/// and the command comes last.
pub proof fn lemma_one_way_to_log_in(
    call: SshCall,
    node: NodeInfo,
    command: Seq<char>,
    judge: Judge<Seq<char>>,
)
    requires
        call.runs(node, command, judge),
    ensures
        call.password is Some <==> node.auth@ == "password"@,
        call.password is Some ==> call.password->0@ == node.password@,
        ({
            let args = texts(call.args@);
            let options = seq![
                "-o"@,
                "StrictHostKeyChecking=accept-new"@,
                "-o"@,
                "UserKnownHostsFile=NUL"@,
                "-o"@,
                "ConnectTimeout=10"@,
            ];
            let account = node.user@ + "@"@ + node.host@;
            if node.auth@ == "key"@ && node.key_path@.len() > 0 {
                &&& args == options + seq![account, "-i"@, node.key_path@, command]
                &&& call.password is None
            } else {
                args == options + seq![account, command]
            }
        }),
{
    reveal_strlit("key");
    reveal_strlit("password");
    assert("key"@.len() != "password"@.len());
}

/// A command has done its work only if it ended with zero, unless nothing is asked of
/// its code; what it printed is kept as it is.
pub proof fn lemma_only_zero_succeeds(
    judge: Judge<Seq<char>>,
    output: CommandOutput<Seq<char>>,
)
    ensures
        judged(judge, output) is Ok <==> output.code == 0 || judge is AnyCode,
        judged(judge, output) is Ok ==> judged(judge, output)->Ok_0 == output,
{
}

} // verus!

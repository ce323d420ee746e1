//! The parts of the `redis` crate that the limiters build on, with what is taken on trust of
//! each of them.
//!
//! A `redis::Pipeline` is a list of commands waiting to be sent; a command is a list of byte
//! strings, the first of which is its name, and may be marked so that its reply is left out of
//! the pipeline's result. Nothing in this module talks to a server.

use vstd::prelude::*;
use vstd::string::StringSliceAdditionalSpecFns;
use vstd::utf8::decode_utf8;
use vstd::utf8::encode_utf8;
use vstd::utf8::encode_utf8_decode_utf8;

verus! {

/// One command of a pipeline.
#[verifier::ext_equal]
pub struct PipedCommand {
    /// The command's name followed by its arguments, as they go over the wire.
    pub args: Seq<Seq<u8>>,
    /// Whether the reply is dropped from the pipeline's result.
    pub ignored: bool,
}

/// The command made of the given words, each sent as its UTF-8 encoding.
pub open spec fn command(words: Seq<Seq<char>>, ignored: bool) -> PipedCommand {
    PipedCommand { args: Seq::new(words.len(), |i: int| encode_utf8(words[i])), ignored }
}

/// The words that a command is made of, each read as UTF-8.
pub open spec fn words_of(command: PipedCommand) -> Seq<Seq<char>> {
    Seq::new(command.args.len(), |i: int| decode_utf8(command.args[i]))
}

/// A command made of words is made of those words.
pub proof fn lemma_words_of_command(words: Seq<Seq<char>>, ignored: bool)
    ensures
        words_of(command(words, ignored)) == words,
        command(words, ignored).ignored == ignored,
{
    assert forall|i: int| 0 <= i < words.len() implies decode_utf8(encode_utf8(words[i]))
        == words[i] by {
        encode_utf8_decode_utf8(words[i]);
    }
}

/// `redis::Pipeline`, of which the verifier sees no more than `pipeline_commands` tells.
#[verifier::external_type_specification]
#[verifier::external_body]
pub struct ExPipeline(redis::Pipeline);

/// `redis::Client`, which is carried along and never looked into.
#[verifier::external_type_specification]
#[verifier::external_body]
pub struct ExClient(redis::Client);

/// `redis::RedisError`, of which the verifier sees no more than `invalid_client_config` tells.
#[verifier::external_type_specification]
#[verifier::external_body]
pub struct ExRedisError(redis::RedisError);

/// The commands that a pipeline holds, in the order in which they will be sent.
pub uninterp spec fn pipeline_commands(pipe: redis::Pipeline) -> Seq<PipedCommand>;

/// Whether `redis::Client::open` accepts the given URL.
pub uninterp spec fn client_url_accepted(url: Seq<char>) -> bool;

/// Whether an error of the `redis` crate reports an invalid client configuration.
pub uninterp spec fn invalid_client_config(error: redis::RedisError) -> bool;

/// The commands of a pipeline after one more argument went to its last command.
pub open spec fn with_argument(commands: Seq<PipedCommand>, arg: Seq<u8>) -> Seq<PipedCommand>
    recommends
        commands.len() > 0,
{
    commands.update(
        commands.len() - 1,
        PipedCommand { args: commands.last().args.push(arg), ignored: commands.last().ignored },
    )
}

/// `Pipeline::cmd`: starts a new command that consists of its name alone and whose reply is
/// kept.
#[verifier::external_body]
pub(crate) fn start_command(pipe: &mut redis::Pipeline, name: &str)
    ensures
        pipeline_commands(*final(pipe)) == pipeline_commands(*old(pipe)).push(
            PipedCommand { args: seq![name.spec_bytes()], ignored: false },
        ),
{
    pipe.cmd(name);
}

/// `Pipeline::arg` with a string: the string's bytes become one more argument of the last
/// command. The call panics on a pipeline without commands.
#[verifier::external_body]
pub(crate) fn push_text(pipe: &mut redis::Pipeline, arg: &str)
    requires
        pipeline_commands(*old(pipe)).len() > 0,
    ensures
        pipeline_commands(*final(pipe)) == with_argument(
            pipeline_commands(*old(pipe)),
            arg.spec_bytes(),
        ),
{
    pipe.arg(arg);
}

/// `Pipeline::ignore`: marks the last command so that its reply is dropped; an empty pipeline
/// stays as it is.
#[verifier::external_body]
pub(crate) fn ignore_reply(pipe: &mut redis::Pipeline)
    ensures
        pipeline_commands(*final(pipe)) == if pipeline_commands(*old(pipe)).len() == 0 {
            pipeline_commands(*old(pipe))
        } else {
            pipeline_commands(*old(pipe)).update(
                pipeline_commands(*old(pipe)).len() - 1,
                PipedCommand { args: pipeline_commands(*old(pipe)).last().args, ignored: true },
            )
        },
{
    pipe.ignore();
}

/// The texts that a list of string slices holds.
pub open spec fn texts(words: Seq<&str>) -> Seq<Seq<char>> {
    Seq::new(words.len(), |i: int| words[i]@)
}

/// Adds one command to the pipeline: its name, then its arguments, and whether its reply is
/// dropped.
pub fn write_command(pipe: &mut redis::Pipeline, words: &[&str], ignored: bool)
    requires
        words@.len() > 0,
    ensures
        pipeline_commands(*final(pipe)) == pipeline_commands(*old(pipe)).push(
            command(texts(words@), ignored),
        ),
{
    start_command(pipe, words[0]);
    let mut i: usize = 1;
    assert(pipeline_commands(*pipe).last() =~~= command(texts(words@.subrange(0, 1)), false));
    while i < words.len()
        invariant
            1 <= i <= words@.len(),
            pipeline_commands(*pipe) == pipeline_commands(*old(pipe)).push(
                command(texts(words@.subrange(0, i as int)), false),
            ),
        decreases words@.len() - i,
    {
        push_text(pipe, words[i]);
        assert(pipeline_commands(*pipe).last() =~~= command(
            texts(words@.subrange(0, i + 1)),
            false,
        ));
        i = i + 1;
    }
    assert(words@.subrange(0, i as int) =~= words@);
    if ignored {
        ignore_reply(pipe);
    }
}

/// `Client::open` with a URL: checks the URL and keeps what it says, without connecting. It
/// fails only with an error that reports an invalid client configuration, and it accepts
/// `redis://127.0.0.1:6379`.
#[verifier::external_body]
pub(crate) fn open_client(url: &str) -> (r: Result<redis::Client, redis::RedisError>)
    ensures
        r is Ok == client_url_accepted(url@),
        r is Err ==> invalid_client_config(r->Err_0),
        url@ == "redis://127.0.0.1:6379"@ ==> r is Ok,
{
    redis::Client::open(url)
}

/// `Client::clone`: another handle on the same store; nothing is stated of it.
pub assume_specification[ <redis::Client as Clone>::clone ](client: &redis::Client) -> (r:
    redis::Client)
;

/// `RedisError::kind`, compared with `ErrorKind::InvalidClientConfig`.
#[verifier::external_body]
pub(crate) fn is_invalid_client_config(error: &redis::RedisError) -> (b: bool)
    ensures
        b == invalid_client_config(*error),
{
    matches!(error.kind(), redis::ErrorKind::InvalidClientConfig)
}

/// `RedisError::to_string`: the text that the error prints of itself, of which nothing is
/// stated.
#[verifier::external_body]
pub(crate) fn error_text(error: &redis::RedisError) -> (r: String) {
    error.to_string()
}

} // verus!

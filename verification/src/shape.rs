//! The shape of a model, as its configuration gives it.
use crate::config::{members_of_file, number_or, numbers_at, ConfigDoc, ConfigError};
use crate::cord::{cord_course, corded_config};
use crate::growth::{depth_in, is_dual};
use crate::json::{json_text, number_at, reads_as, Members};
use crate::surgery_laws::law_written_config_reads_the_same;
use crate::text::text_of;
use vstd::prelude::*;

verus! {

/// The depth from which on a single-stream model is split into two streams.
pub const CORD_DEPTH: usize = 25;

/// What the trainer has to know of a model to build it.
pub struct Architecture {
    /// The width of a stream.
    pub hidden_size: usize,
    /// The layers.
    pub num_layers: usize,
    /// The attention heads of a layer.
    pub num_heads: usize,
    /// The longest text that the model sees, in tokens.
    pub max_seq_len: usize,
    /// The experts of a layer.
    pub num_experts: usize,
    /// The streams.
    pub num_streams: usize,
    /// The layers after which two streams exchange what they hold.
    pub fusion_layers: Vec<usize>,
}

/// The configuration gives all the numbers that it has to give.
pub open spec fn is_complete(m: Members) -> bool {
    &&& number_at(m, "hidden_size"@) is Some
    &&& number_at(m, "num_layers"@) is Some
    &&& number_at(m, "num_heads"@) is Some
    &&& number_at(m, "max_seq_len"@) is Some
    &&& number_at(m, "num_experts"@) is Some
}

/// The architecture is the one that the configuration gives.
pub open spec fn is_architecture(a: Architecture, m: Members) -> bool {
    &&& a.hidden_size == number_or(m, "hidden_size"@, 0) as usize
    &&& a.num_layers == number_or(m, "num_layers"@, 0) as usize
    &&& a.num_heads == number_or(m, "num_heads"@, 0) as usize
    &&& a.max_seq_len == number_or(m, "max_seq_len"@, 0) as usize
    &&& a.num_experts == number_or(m, "num_experts"@, 0) as usize
    &&& a.num_streams == number_or(m, "num_streams"@, 1) as usize
    &&& a.fusion_layers@ == numbers_at(m, "fusion_layers"@)
}

/// The architecture that a configuration gives.
pub fn architecture(config: &ConfigDoc) -> (r: Result<Architecture, ConfigError>)
    ensures
        r is Ok <==> is_complete(config@),
        r matches Ok(a) ==> is_architecture(a, config@),
        r matches Err(e) ==> e == ConfigError::MissingNumber,
{
    match (
        config.number("hidden_size"),
        config.number("num_layers"),
        config.number("num_heads"),
        config.number("max_seq_len"),
        config.number("num_experts"),
    ) {
        (Some(hidden), Some(layers), Some(heads), Some(ctx), Some(experts)) => {
            let streams: u64 = config.number_or("num_streams", 1);
            Ok(
                Architecture {
                    hidden_size: hidden as usize,
                    num_layers: layers as usize,
                    num_heads: heads as usize,
                    max_seq_len: ctx as usize,
                    num_experts: experts as usize,
                    num_streams: streams as usize,
                    fusion_layers: config.numbers("fusion_layers"),
                },
            )
        },
        _ => Err(ConfigError::MissingNumber),
    }
}

/// The architecture that the text of a configuration gives.
pub fn read_architecture(text: &str) -> (r: Result<Architecture, ConfigError>)
    ensures
        r is Ok <==> (json_text(text@) matches Some(m) && is_complete(m)),
        r matches Ok(a) ==> (json_text(text@) matches Some(m) && is_architecture(a, m)),
        r matches Err(e) ==> e == (match json_text(text@) {
            Some(_) => ConfigError::MissingNumber,
            None => ConfigError::NotJson,
        }),
{
    match ConfigDoc::parse(text) {
        Ok(config) => architecture(&config),
        Err(e) => Err(e),
    }
}

/// A number of the configuration in a file, or `default` where the file or the number is missing.
fn number_of_config(text: &Option<String>, key: &str, default: u64) -> (r: u64)
    ensures
        r == number_or(members_of_file(text_of(*text)), key@, default),
{
    match text {
        Some(t) => match ConfigDoc::parse(t.as_str()) {
            Ok(config) => config.number_or(key, default),
            Err(_) => default,
        },
        None => default,
    }
}

/// The depth and the longest text that a run starts with: those of the configuration file, or three
/// layers and 256 tokens.
pub fn starting_shape(text: &Option<String>) -> (r: (usize, usize))
    ensures
        r.0 == number_or(members_of_file(text_of(*text)), "num_layers"@, 3) as usize,
        r.1 == number_or(members_of_file(text_of(*text)), "max_seq_len"@, 256) as usize,
{
    let layers: u64 = number_of_config(text, "num_layers", 3);
    let ctx: u64 = number_of_config(text, "max_seq_len", 256);
    (layers as usize, ctx as usize)
}

/// The depth that a surgery left in the configuration file; zero where none can be read.
pub fn depth_after_surgery(text: &Option<String>) -> (r: usize)
    ensures
        r == number_or(members_of_file(text_of(*text)), "num_layers"@, 0) as usize,
{
    let layers: u64 = number_of_config(text, "num_layers", 0);
    layers as usize
}

/// What a run does next.
#[derive(Clone, Copy, Debug, PartialEq, Eq, Structural)]
pub enum Move {
    /// It splits the model, which has so many layers, into two streams.
    Cord(usize),
    /// It trains a model of so many layers and experts.
    Train { num_layers: usize, num_experts: usize },
}

/// A single-stream model of this depth has reached the limit of its width.
pub open spec fn needs_cord(num_layers: int, num_streams: int) -> bool {
    num_streams < 2 && num_layers >= CORD_DEPTH
}

/// What a run does next, with a model of this configuration.
pub open spec fn move_of(m: Members) -> Move {
    let num_layers = number_or(m, "num_layers"@, 3) as usize;
    if needs_cord(num_layers as int, number_or(m, "num_streams"@, 1) as usize as int) {
        Move::Cord(num_layers)
    } else {
        Move::Train { num_layers, num_experts: number_or(m, "num_experts"@, 12) as usize }
    }
}

/// What a run does next, with the model of the configuration file.
pub fn next_move(text: &Option<String>) -> (r: Move)
    ensures
        r == move_of(members_of_file(text_of(*text))),
{
    let layers: u64 = number_of_config(text, "num_layers", 3);
    let streams: u64 = number_of_config(text, "num_streams", 1);
    let experts: u64 = number_of_config(text, "num_experts", 12);
    let num_layers: usize = layers as usize;
    let num_streams: usize = streams as usize;
    if num_streams < 2 && num_layers >= CORD_DEPTH {
        Move::Cord(num_layers)
    } else {
        Move::Train { num_layers, num_experts: experts as usize }
    }
}

/// What a run does next, and what model it builds, is the same before and after its configuration was
/// written and read again.
pub proof fn law_written_config_gives_the_same_shape(read: Members, m: Members, a: Architecture)
    requires
        reads_as(Some(read), m),
    ensures
        move_of(read) == move_of(m),
        is_complete(read) == is_complete(m),
        is_architecture(a, read) == is_architecture(a, m),
{
    law_written_config_reads_the_same(read, m, "hidden_size"@);
    law_written_config_reads_the_same(read, m, "num_layers"@);
    law_written_config_reads_the_same(read, m, "num_heads"@);
    law_written_config_reads_the_same(read, m, "max_seq_len"@);
    law_written_config_reads_the_same(read, m, "num_experts"@);
    law_written_config_reads_the_same(read, m, "num_streams"@);
    law_written_config_reads_the_same(read, m, "fusion_layers"@);
}

/// A run splits a model only where it has one stream; and once it has, it goes on to train the model
/// at the same depth, so that it never splits a model twice.
pub proof fn law_cord_leads_to_training(m: Members)
    requires
        move_of(m) is Cord,
    ensures
        !is_dual(m),
        number_at(m, "num_layers"@) is Some ==> depth_in(m) >= CORD_DEPTH,
        cord_course(m) is Cords ==> (move_of(corded_config(m)) matches Move::Train {
            num_layers,
            ..
        } && num_layers == depth_in(m)),
        cord_course(m) !is AlreadyApplied,
{
    reveal_strlit("num_layers");
    reveal_strlit("num_streams");
    reveal_strlit("fusion_layers");
    let c = corded_config(m);
    assert("num_layers"@.len() != "num_streams"@.len());
    assert("fusion_layers"@.len() != "num_streams"@.len());
    assert("fusion_layers"@.len() != "num_layers"@.len());
}

/// A model is split exactly where it has one stream and twenty-five layers or more. Any other is trained
/// as it is; a configuration that says nothing gives three layers, one stream and twelve experts.
pub proof fn law_models_are_split_at_twenty_five_layers(m: Members)
    ensures
        ({
            let layers = match number_at(m, "num_layers"@) {
                Some(n) => n as usize,
                None => 3,
            };
            let streams = match number_at(m, "num_streams"@) {
                Some(n) => n as usize,
                None => 1,
            };
            let experts = match number_at(m, "num_experts"@) {
                Some(n) => n as usize,
                None => 12,
            };
            &&& streams < 2 && layers >= 25 ==> move_of(m) == Move::Cord(layers)
            &&& streams >= 2 || layers < 25 ==> move_of(m) == (Move::Train {
                num_layers: layers,
                num_experts: experts,
            })
        }),
{
}

/// A model is built as its configuration says, number by number, with one stream where it says nothing
/// of streams; without one of the five numbers that it has to give it cannot be built.
pub proof fn law_models_are_built_as_configured(a: Architecture, m: Members)
    requires
        is_architecture(a, m),
    ensures
        number_at(m, "hidden_size"@) matches Some(n) ==> a.hidden_size == n as usize,
        number_at(m, "num_layers"@) matches Some(n) ==> a.num_layers == n as usize,
        number_at(m, "num_heads"@) matches Some(n) ==> a.num_heads == n as usize,
        number_at(m, "max_seq_len"@) matches Some(n) ==> a.max_seq_len == n as usize,
        number_at(m, "num_experts"@) matches Some(n) ==> a.num_experts == n as usize,
        number_at(m, "num_streams"@) matches Some(n) ==> a.num_streams == n as usize,
        number_at(m, "num_streams"@) is None ==> a.num_streams == 1,
        is_complete(m) <==> !(number_at(m, "hidden_size"@) is None || number_at(m, "num_layers"@)
            is None || number_at(m, "num_heads"@) is None || number_at(m, "max_seq_len"@) is None
            || number_at(m, "num_experts"@) is None),
{
}

} // verus!

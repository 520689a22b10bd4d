//! The table of parsers, and the dispatch of a blob to the parser of its program.
use vstd::prelude::*;
use crate::error::BlockbusterError;
use crate::instruction::InstructionBundle;
use crate::program_handler::{outcome, AccountInfo, ParsedRecord, ProgramParser, RecordView};
use crate::programs::candy_machine::CandyMachineParser;
use crate::programs::token_metadata::TokenMetadataParser;
use crate::pubkey::Pubkey;

verus! {

/// The parsers that the library has, one variant for each program.
#[derive(Clone, Copy, Debug, PartialEq, Eq)]
pub enum Parser {
    CandyMachine(CandyMachineParser),
    TokenMetadata(TokenMetadataParser),
}

impl ProgramParser for Parser {
    open spec fn program(&self) -> Pubkey {
        match self {
            Parser::CandyMachine(parser) => parser.program(),
            Parser::TokenMetadata(parser) => parser.program(),
        }
    }

    open spec fn discriminator_len(&self) -> nat {
        match self {
            Parser::CandyMachine(parser) => parser.discriminator_len(),
            Parser::TokenMetadata(parser) => parser.discriminator_len(),
        }
    }

    open spec fn known_discriminator(&self, discriminator: Seq<u8>) -> bool {
        match self {
            Parser::CandyMachine(parser) => parser.known_discriminator(discriminator),
            Parser::TokenMetadata(parser) => parser.known_discriminator(discriminator),
        }
    }

    open spec fn account_outcome(&self, blob: Seq<u8>) -> Result<RecordView, BlockbusterError> {
        match self {
            Parser::CandyMachine(parser) => parser.account_outcome(blob),
            Parser::TokenMetadata(parser) => parser.account_outcome(blob),
        }
    }

    open spec fn instruction_outcome(&self, bundle: InstructionBundle<'_>) -> Result<
        RecordView,
        BlockbusterError,
    > {
        match self {
            Parser::CandyMachine(parser) => parser.instruction_outcome(bundle),
            Parser::TokenMetadata(parser) => parser.instruction_outcome(bundle),
        }
    }

    fn key(&self) -> (id: Pubkey) {
        match self {
            Parser::CandyMachine(parser) => parser.key(),
            Parser::TokenMetadata(parser) => parser.key(),
        }
    }

    fn key_match(&self, key: &Pubkey) -> (same: bool) {
        match self {
            Parser::CandyMachine(parser) => parser.key_match(key),
            Parser::TokenMetadata(parser) => parser.key_match(key),
        }
    }

    fn handle_account(&self, account_info: &AccountInfo<'_>) -> (result: Result<
        ParsedRecord,
        BlockbusterError,
    >) {
        match self {
            Parser::CandyMachine(parser) => parser.handle_account(account_info),
            Parser::TokenMetadata(parser) => parser.handle_account(account_info),
        }
    }

    fn handle_instruction(&self, bundle: &InstructionBundle<'_>) -> (result: Result<
        ParsedRecord,
        BlockbusterError,
    >) {
        match self {
            Parser::CandyMachine(parser) => parser.handle_instruction(bundle),
            Parser::TokenMetadata(parser) => parser.handle_instruction(bundle),
        }
    }
}

/// The first parser of a list that answers for a program, if one does.
pub open spec fn parser_for(parsers: Seq<Parser>, program: Pubkey) -> Option<Parser>
    decreases parsers.len(),
{
    if parsers.len() == 0 {
        None
    } else if parsers[0].program() == program {
        Some(parsers[0])
    } else {
        parser_for(parsers.drop_first(), program)
    }
}

/// No two parsers of a list answer for the same program.
pub open spec fn one_parser_each(parsers: Seq<Parser>) -> bool {
    forall|i: int, j: int|
        0 <= i < j < parsers.len() ==> #[trigger] parsers[i].program()
            != #[trigger] parsers[j].program()
}

/// What an account blob of a program decodes to, given the parsers that are registered.
pub open spec fn account_dispatch(parsers: Seq<Parser>, program: Pubkey, blob: Seq<u8>) -> Result<
    RecordView,
    BlockbusterError,
> {
    match parser_for(parsers, program) {
        Some(parser) => parser.account_outcome(blob),
        None => Err(BlockbusterError::UnknownProgram),
    }
}

/// What an instruction decodes to, given the parsers that are registered.
pub open spec fn instruction_dispatch(parsers: Seq<Parser>, bundle: InstructionBundle<'_>) -> Result<
    RecordView,
    BlockbusterError,
> {
    match parser_for(parsers, bundle.program) {
        Some(parser) => parser.instruction_outcome(bundle),
        None => Err(BlockbusterError::UnknownProgram),
    }
}

/// The parsers that were registered, at most one for each program.
pub struct Registry {
    parsers: Vec<Parser>,
}

impl View for Registry {
    type V = Seq<Parser>;

    closed spec fn view(&self) -> Seq<Parser> {
        self.parsers@
    }
}

impl Registry {
    /// No two registered parsers answer for the same program. A registry is made with
    /// `new` and grows by `register` alone, so every registry is well formed.
    pub open spec fn well_formed(&self) -> bool {
        one_parser_each(self@)
    }

    /// A registry without parsers.
    pub fn new() -> (registry: Registry)
        ensures
            registry@ == Seq::<Parser>::empty(),
            registry.well_formed(),
    {
        Registry { parsers: Vec::new() }
    }

    /// Adds a parser, unless one is registered for its program already.
    /// Tells whether the parser was added.
    pub fn register(&mut self, parser: Parser) -> (added: bool)
        ensures
            added == (parser_for(old(self)@, parser.program()) is None),
            added ==> final(self)@ == old(self)@.push(parser),
            !added ==> final(self)@ == old(self)@,
            old(self).well_formed() ==> final(self).well_formed(),
    {
        proof {
            lemma_parser_for(self.parsers@, parser.program());
        }
        let id = parser.key();
        if self.find_parser(&id).is_some() {
            return false;
        }
        self.parsers.push(parser);
        true
    }

    /// The parser that is registered for a program, if one is.
    pub fn find_parser(&self, identity: &Pubkey) -> (found: Option<&Parser>)
        ensures
            found == match parser_for(self@, *identity) {
                Some(parser) => Some(&parser),
                None => None,
            },
    {
        let mut i: usize = 0;
        assert(self.parsers@.skip(0) =~= self.parsers@);
        while i < self.parsers.len()
            invariant
                i <= self.parsers.len(),
                parser_for(self.parsers@, *identity) == parser_for(
                    self.parsers@.skip(i as int),
                    *identity,
                ),
            decreases self.parsers.len() - i,
        {
            let ghost rest = self.parsers@.skip(i as int);
            assert(rest[0] == self.parsers@[i as int]);
            if self.parsers[i].key_match(identity) {
                return Some(&self.parsers[i]);
            }
            assert(rest.drop_first() =~= self.parsers@.skip(i + 1));
            i = i + 1;
        }
        assert(self.parsers@.skip(i as int).len() == 0);
        None
    }

    /// Decodes an account blob with the parser of the program that owns it.
    pub fn dispatch_account(&self, identity: &Pubkey, blob: &[u8]) -> (result: Result<
        ParsedRecord,
        BlockbusterError,
    >)
        ensures
            outcome(result) == account_dispatch(self@, *identity, blob@),
    {
        match self.find_parser(identity) {
            Some(parser) => {
                let account = AccountInfo { data: Some(blob) };
                parser.handle_account(&account)
            },
            None => Err(BlockbusterError::UnknownProgram),
        }
    }

    /// Decodes an instruction with the parser of the program that it invokes.
    pub fn dispatch_instruction(&self, bundle: &InstructionBundle<'_>) -> (result: Result<
        ParsedRecord,
        BlockbusterError,
    >)
        ensures
            outcome(result) == instruction_dispatch(self@, *bundle),
    {
        match self.find_parser(&bundle.program) {
            Some(parser) => parser.handle_instruction(bundle),
            None => Err(BlockbusterError::UnknownProgram),
        }
    }
}

/// A lookup never answers with a parser of another program, and answers with none
/// only where no parser of the list answers for the program.
pub proof fn lemma_parser_for(parsers: Seq<Parser>, program: Pubkey)
    ensures
        match parser_for(parsers, program) {
            Some(parser) => parser.program() == program && parsers.contains(parser),
            None => forall|i: int| 0 <= i < parsers.len() ==> parsers[i].program() != program,
        },
    decreases parsers.len(),
{
    if parsers.len() > 0 && parsers[0].program() != program {
        let rest = parsers.drop_first();
        lemma_parser_for(rest, program);
        match parser_for(rest, program) {
            Some(parser) => {
                let i = choose|i: int| 0 <= i < rest.len() && rest[i] == parser;
                assert(parsers[i + 1] == parser);
            },
            None => {
                assert forall|i: int| 0 <= i < parsers.len() implies parsers[i].program()
                    != program by {
                    if i > 0 {
                        assert(rest[i - 1] == parsers[i]);
                    }
                }
            },
        }
    } else if parsers.len() > 0 {
        assert(parsers[0] == parsers[0]);
    }
}

/// Where no two parsers answer for the same program, each parser of the list is the
/// one that a lookup of its program answers with.
pub proof fn lemma_registered_parser_is_found(parsers: Seq<Parser>, i: int)
    requires
        one_parser_each(parsers),
        0 <= i < parsers.len(),
    ensures
        parser_for(parsers, parsers[i].program()) == Some(parsers[i]),
    decreases parsers.len(),
{
    if i > 0 {
        let rest = parsers.drop_first();
        assert(parsers[0].program() != parsers[i].program());
        assert forall|a: int, b: int| 0 <= a < b < rest.len() implies #[trigger] rest[a].program()
            != #[trigger] rest[b].program() by {
            assert(rest[a] == parsers[a + 1]);
            assert(rest[b] == parsers[b + 1]);
        }
        assert(rest[i - 1] == parsers[i]);
        lemma_registered_parser_is_found(rest, i - 1);
    }
}

/// No parser of the library decodes instructions: each instruction of a registered
/// program is the marker that nothing was decoded, never an error.
pub proof fn lemma_instructions_are_not_used(parser: Parser, bundle: InstructionBundle<'_>)
    ensures
        parser.instruction_outcome(bundle) == Ok::<_, BlockbusterError>(RecordView::NotUsed),
{
}

/// Dispatch is a function of the registered parsers, the program and the bytes: two
/// outcomes that meet the contract of `dispatch_account` on the same input are the same.
pub proof fn lemma_dispatch_is_a_function(
    parsers: Seq<Parser>,
    program: Pubkey,
    blob: Seq<u8>,
    first: Result<ParsedRecord, BlockbusterError>,
    second: Result<ParsedRecord, BlockbusterError>,
)
    requires
        outcome(first) == account_dispatch(parsers, program, blob),
        outcome(second) == account_dispatch(parsers, program, blob),
    ensures
        outcome(first) == outcome(second),
{
}

/// A blob of a program without a registered parser is an `UnknownProgram`.
pub proof fn lemma_unregistered_program(parsers: Seq<Parser>, program: Pubkey, blob: Seq<u8>)
    requires
        forall|i: int| 0 <= i < parsers.len() ==> parsers[i].program() != program,
    ensures
        parser_for(parsers, program) is None,
        account_dispatch(parsers, program, blob) == Err::<RecordView, _>(
            BlockbusterError::UnknownProgram,
        ),
{
    lemma_parser_for(parsers, program);
    if let Some(parser) = parser_for(parsers, program) {
        let i = choose|i: int| 0 <= i < parsers.len() && parsers[i] == parser;
        assert(parsers[i].program() == program);
    }
}

/// A blob that is shorter than the discriminator of its program is malformed.
pub proof fn lemma_short_blob_is_malformed(parser: Parser, blob: Seq<u8>)
    requires
        blob.len() < parser.discriminator_len(),
    ensures
        parser.account_outcome(blob) == Err::<RecordView, _>(
            BlockbusterError::MalformedAccountData,
        ),
{
}

/// A blob whose discriminator names no record of its program is an
/// `UnknownAccountDiscriminator`, whatever follows the discriminator.
pub proof fn lemma_unknown_discriminator(parser: Parser, blob: Seq<u8>)
    requires
        blob.len() >= parser.discriminator_len(),
        !parser.known_discriminator(blob.subrange(0, parser.discriminator_len() as int)),
    ensures
        parser.account_outcome(blob) == Err::<RecordView, _>(
            BlockbusterError::UnknownAccountDiscriminator,
        ),
{
}

} // verus!

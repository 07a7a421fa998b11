use vstd::prelude::*;
use crate::vga_buffer::{
    blank, lemma_clear_screen, line_feeds, write_chars_spec, Color, ColorCode, Writer,
    WriterView, BUFFER_HEIGHT, BUFFER_WIDTH,
};

verus! {

/// Size of the command line buffer; one byte of it is never filled.
pub const MAX_COMMAND_LENGTH: usize = 50;

/// Whether `b` is a printable ASCII byte (space to tilde).
pub open spec fn printable_byte(b: u8) -> bool {
    32 <= b <= 126
}

/// The commands that the terminal knows.
#[derive(Debug, Clone, Copy, PartialEq, Eq, Structural)]
pub enum Command {
    /// `help`: list the commands.
    Help,
    /// `clear`: scroll the screen empty.
    Clear,
    /// `color`: switch the text colour to yellow on black.
    Color,
    /// `reboot`: restart the machine through the keyboard controller.
    Reboot,
    /// Any other line.
    Unknown,
}

pub open spec fn help_word() -> Seq<u8> {
    seq![104u8, 101, 108, 112]
}

pub open spec fn clear_word() -> Seq<u8> {
    seq![99u8, 108, 101, 97, 114]
}

pub open spec fn color_word() -> Seq<u8> {
    seq![99u8, 111, 108, 111, 114]
}

pub open spec fn reboot_word() -> Seq<u8> {
    seq![114u8, 101, 98, 111, 111, 116]
}

/// The command that a line names: exactly `help`, `clear`, `color` or
/// `reboot`, else unknown.
pub open spec fn command_of(line: Seq<u8>) -> Command {
    if line == help_word() {
        Command::Help
    } else if line == clear_word() {
        Command::Clear
    } else if line == color_word() {
        Command::Color
    } else if line == reboot_word() {
        Command::Reboot
    } else {
        Command::Unknown
    }
}

/// What the terminal asks its owner to do after a key.
pub enum TerminalAction {
    /// Enter: run `command`, named by the text `line`, then show a prompt.
    Execute { line: Vec<u8>, command: Command },
    /// Backspace: rub out the last character on the screen.
    Erase,
    /// A printable key: show it.
    Echo(u8),
    /// Nothing to do.
    Ignore,
}

/// The pending line after `key` is typed on `line`.
pub open spec fn next_line(line: Seq<u8>, key: u8) -> Seq<u8> {
    if key == 10 {
        Seq::empty()
    } else if key == 8 && line.len() > 0 {
        line.drop_last()
    } else if line.len() < MAX_COMMAND_LENGTH - 1 && printable_byte(key) {
        line.push(key)
    } else {
        line
    }
}

/// The command buffer after `key` is typed when the pending line has `len`
/// bytes: backspace zeroes the byte it frees, a stored key is written after
/// the line, and Enter or an ignored key leaves every byte as it was.
pub open spec fn next_bytes(bytes: Seq<u8>, len: nat, key: u8) -> Seq<u8> {
    if key == 10 {
        bytes
    } else if key == 8 && len > 0 {
        bytes.update(len - 1, 0)
    } else if len < MAX_COMMAND_LENGTH - 1 && printable_byte(key) {
        bytes.update(len as int, key)
    } else {
        bytes
    }
}

/// A line-editing terminal: printable keys are collected, backspace removes
/// the last one, Enter hands the line over as a command.
pub struct Terminal {
    buffer: [u8; MAX_COMMAND_LENGTH],
    position: usize,
}

impl Terminal {
    /// The pending line: what has been typed since the last Enter.
    pub closed spec fn line(&self) -> Seq<u8> {
        self.buffer@.take(self.position as int)
    }

    /// The whole command buffer, the pending line and the bytes after it.
    pub closed spec fn bytes(&self) -> Seq<u8> {
        self.buffer@
    }

    /// The line fits the buffer with one byte to spare, that last byte is
    /// never written, and the line holds printable ASCII only.
    pub closed spec fn wf(&self) -> bool {
        &&& self.position < MAX_COMMAND_LENGTH
        &&& self.buffer@[MAX_COMMAND_LENGTH - 1] == 0
        &&& forall|i: int| 0 <= i < self.position ==> printable_byte(#[trigger] self.buffer@[i])
    }

    /// A terminal with an empty line and a zeroed buffer.
    pub fn new() -> (t: Terminal)
        ensures
            t.wf(),
            t.line() == Seq::<u8>::empty(),
            t.bytes() == Seq::new(MAX_COMMAND_LENGTH as nat, |i: int| 0u8),
    {
        let t = Terminal { buffer: [0u8; MAX_COMMAND_LENGTH], position: 0 };
        assert(t.bytes() =~= Seq::new(MAX_COMMAND_LENGTH as nat, |i: int| 0u8));
        t
    }

    /// Handles one key: Enter (`\n`) executes the line and empties it,
    /// backspace (8) removes its last byte, a printable byte is appended
    /// while the line is shorter than 49; any other key is ignored.
    pub fn input(&mut self, key: u8) -> (action: TerminalAction)
        requires
            old(self).wf(),
        ensures
            final(self).wf(),
            final(self).line() == next_line(old(self).line(), key),
            final(self).bytes() == next_bytes(old(self).bytes(), old(self).line().len(), key),
            match action {
                TerminalAction::Execute { line, command } => {
                    &&& key == 10
                    &&& line@ == old(self).line()
                    &&& command == command_of(old(self).line())
                },
                TerminalAction::Erase => key == 8 && old(self).line().len() > 0,
                TerminalAction::Echo(k) => {
                    &&& k == key
                    &&& key != 10
                    &&& !(key == 8 && old(self).line().len() > 0)
                    &&& old(self).line().len() < MAX_COMMAND_LENGTH - 1
                    &&& printable_byte(key)
                },
                TerminalAction::Ignore => {
                    &&& final(self).line() == old(self).line()
                    &&& final(self).bytes() == old(self).bytes()
                    &&& key != 10
                    &&& !(key == 8 && old(self).line().len() > 0)
                    &&& !(old(self).line().len() < MAX_COMMAND_LENGTH - 1 && printable_byte(key))
                },
            },
    {
        if key == 10u8 {
            let line = self.current_line();
            let command = self.execute_command();
            self.position = 0;
            assert(self.line() =~= Seq::<u8>::empty());
            TerminalAction::Execute { line, command }
        } else if key == 8u8 && self.position > 0 {
            self.position = self.position - 1;
            self.buffer[self.position] = 0u8;
            assert(self.line() =~= old(self).line().drop_last());
            TerminalAction::Erase
        } else if self.position < MAX_COMMAND_LENGTH - 1 && key >= 32u8 && key <= 126u8 {
            self.buffer[self.position] = key;
            self.position = self.position + 1;
            assert(self.line() =~= old(self).line().push(key));
            TerminalAction::Echo(key)
        } else {
            TerminalAction::Ignore
        }
    }

    /// A copy of the pending line.
    pub fn current_line(&self) -> (r: Vec<u8>)
        requires
            self.wf(),
        ensures
            r@ == self.line(),
    {
        let mut r: Vec<u8> = Vec::new();
        for i in 0..self.position
            invariant
                self.wf(),
                r@ == self.buffer@.take(i as int),
        {
            r.push(self.buffer[i]);
            assert(r@ =~= self.buffer@.take(i + 1));
        }
        r
    }

    fn line_is(&self, word: &[u8]) -> (r: bool)
        requires
            self.wf(),
        ensures
            r == (self.line() == word@),
    {
        if self.position != word.len() {
            assert(self.line().len() != word@.len());
            return false;
        }
        for i in 0..self.position
            invariant
                self.wf(),
                self.position == word@.len(),
                forall|j: int| 0 <= j < i ==> self.buffer@[j] == word@[j],
        {
            if self.buffer[i] != word[i] {
                assert(self.line()[i as int] != word@[i as int]);
                return false;
            }
        }
        assert(self.line() =~= word@);
        true
    }

    /// The command that the pending line names.
    fn execute_command(&self) -> (c: Command)
        requires
            self.wf(),
        ensures
            c == command_of(self.line()),
    {
        let help: [u8; 4] = [104u8, 101, 108, 112];
        let clear: [u8; 5] = [99u8, 108, 101, 97, 114];
        let color: [u8; 5] = [99u8, 111, 108, 111, 114];
        let reboot: [u8; 6] = [114u8, 101, 98, 111, 111, 116];
        assert(help@ =~= help_word());
        assert(clear@ =~= clear_word());
        assert(color@ =~= color_word());
        assert(reboot@ =~= reboot_word());
        if self.line_is(help.as_slice()) {
            Command::Help
        } else if self.line_is(clear.as_slice()) {
            Command::Clear
        } else if self.line_is(color.as_slice()) {
            Command::Color
        } else if self.line_is(reboot.as_slice()) {
            Command::Reboot
        } else {
            Command::Unknown
        }
    }
}

/// What a command does to the screen, apart from the text it prints: `clear`
/// writes a screen's height of line feeds, which leaves every cell blank in
/// the current colour with the cursor at the start of the bottom row;
/// `color` switches to yellow on black (attribute 0x0E); the other commands
/// leave the screen as it is.
pub fn apply_to_screen(command: Command, writer: &mut Writer)
    requires
        old(writer).wf(),
    ensures
        final(writer).wf(),
        final(writer).view() == (match command {
            Command::Clear => WriterView {
                column: 0,
                color: old(writer).view().color,
                cells: Seq::new(
                    (BUFFER_HEIGHT * BUFFER_WIDTH) as nat,
                    |i: int| blank(old(writer).view().color),
                ),
            },
            Command::Color => WriterView { color: ColorCode(0x0E), ..old(writer).view() },
            _ => old(writer).view(),
        }),
{
    match command {
        Command::Clear => {
            let ghost start = writer.view();
            for i in 0..BUFFER_HEIGHT
                invariant
                    writer.wf(),
                    start.cells.len() == BUFFER_HEIGHT * BUFFER_WIDTH,
                    writer.view() == write_chars_spec(start, line_feeds(i as nat)),
            {
                proof {
                    assert(line_feeds((i + 1) as nat).drop_last() =~= line_feeds(i as nat));
                }
                writer.write_byte(10u8);
            }
            proof {
                lemma_clear_screen(start);
            }
        },
        Command::Color => {
            writer.set_color(Color::Yellow, Color::Black);
        },
        _ => {},
    }
}

/// Exactly the four words `help`, `clear`, `color` and `reboot` name a
/// command, each its own; every other line, the empty one and any with
/// extra bytes or other case included, is unknown.
pub proof fn lemma_command_names(line: Seq<u8>)
    ensures
        (command_of(line) == Command::Help) <==> line == seq![104u8, 101, 108, 112],
        (command_of(line) == Command::Clear) <==> line == seq![99u8, 108, 101, 97, 114],
        (command_of(line) == Command::Color) <==> line == seq![99u8, 111, 108, 111, 114],
        (command_of(line) == Command::Reboot) <==> line == seq![114u8, 101, 98, 111, 111, 116],
        (command_of(line) == Command::Unknown) <==> (line != seq![104u8, 101, 108, 112] && line
            != seq![99u8, 108, 101, 97, 114] && line != seq![99u8, 111, 108, 111, 114] && line
            != seq![114u8, 101, 98, 111, 111, 116]),
{
    assert(help_word() =~= seq![104u8, 101, 108, 112]);
    assert(clear_word() =~= seq![99u8, 108, 101, 97, 114]);
    assert(color_word() =~= seq![99u8, 111, 108, 111, 114]);
    assert(reboot_word() =~= seq![114u8, 101, 98, 111, 111, 116]);
    assert(help_word() != clear_word()) by {
        assert(help_word().len() != clear_word().len());
    }
    assert(help_word() != color_word()) by {
        assert(help_word().len() != color_word().len());
    }
    assert(help_word() != reboot_word()) by {
        assert(help_word().len() != reboot_word().len());
    }
    assert(clear_word() != color_word()) by {
        assert(clear_word()[1] != color_word()[1]);
    }
    assert(clear_word() != reboot_word()) by {
        assert(clear_word().len() != reboot_word().len());
    }
    assert(color_word() != reboot_word()) by {
        assert(color_word().len() != reboot_word().len());
    }
}

/// How a key may change the line: a key that is not Enter, not a backspace
/// with something to rub out and not a printable byte (32 to 126) with room
/// left (fewer than 49 bytes) changes neither the line nor the buffer; the
/// line grows only by a printable key, which then ends it; short of Enter it
/// shrinks only by a backspace, which drops its last byte; Enter empties it.
pub proof fn lemma_key_effects(line: Seq<u8>, bytes: Seq<u8>, key: u8)
    ensures
        key != 10 && !(key == 8 && line.len() > 0) && !(line.len() < 49 && 32 <= key <= 126)
            ==> next_line(line, key) == line && next_bytes(bytes, line.len(), key) == bytes,
        next_line(line, key).len() > line.len() ==> 32 <= key <= 126 && next_line(line, key)
            == line.push(key),
        key != 10 && next_line(line, key).len() < line.len() ==> key == 8 && next_line(line, key)
            == line.drop_last(),
        key == 10 ==> next_line(line, key).len() == 0,
        next_line(line, key).len() <= line.len() + 1,
{
}

/// The pending line always fits the buffer with a byte to spare (the last
/// byte of the buffer stays zero) and holds printable ASCII only, so it is
/// always valid UTF-8 when it is executed; it is the start of the buffer.
pub proof fn lemma_line_printable(t: &Terminal)
    requires
        t.wf(),
    ensures
        t.line().len() < MAX_COMMAND_LENGTH,
        t.bytes().len() == MAX_COMMAND_LENGTH,
        t.bytes()[MAX_COMMAND_LENGTH - 1] == 0,
        t.line() == t.bytes().take(t.line().len() as int),
        forall|i: int| 0 <= i < t.line().len() ==> printable_byte(#[trigger] t.line()[i]),
{
}

/// Backspace takes back a key that was added to the line.
pub proof fn lemma_backspace_undoes_key(line: Seq<u8>, key: u8)
    requires
        line.len() < MAX_COMMAND_LENGTH - 1,
        printable_byte(key),
    ensures
        next_line(next_line(line, key), 8) == line,
{
    assert(line.push(key).drop_last() =~= line);
}

} // verus!

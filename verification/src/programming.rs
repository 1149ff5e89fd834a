//! Programmable mode: the instruction list, its two cursors, the label
//! table, and the subroutine return stack.
//!
//! The execution cursor (`program_counter`) and the editing cursor
//! (`edit_position`) are deliberately separate indices into the same
//! program. Line numbers are 1-based and dense: every insertion or
//! deletion renumbers the whole program and rebuilds the label table,
//! which is derived data — `goto_label` resolves a recorded label line to
//! the first instruction whose current line number is at least that
//! target, tolerating gaps left by deletions.

use crate::text::{join_with_spaces, spec_join, spec_upper_seq, str_eq, str_upper,
    two_digit_string, spec_digit_char, spec_u64_digits};
use vstd::prelude::*;
use vstd::string::*;

verus! {

broadcast use vstd::seq_lib::lemma_seq_contains_after_push;

/// Most instructions a program may hold (line numbers stay small).
pub const MAX_PROGRAM_LINES: usize = 9999;

/// One stored program step.
#[derive(Debug)]
pub struct ProgramInstruction {
    pub line_number: i32,
    pub command: String,
    pub arguments: Vec<String>,
}

impl Clone for ProgramInstruction {
    /// A copy with the same line number, command and arguments.
    fn clone(&self) -> (r: Self)
        ensures
            r.line_number == self.line_number,
            r.command == self.command,
            r.arguments@ == self.arguments@,
    {
        let mut arguments: Vec<String> = Vec::new();
        let mut i: usize = 0;
        while i < self.arguments.len()
            invariant
                i <= self.arguments.len(),
                arguments@ =~= self.arguments@.subrange(0, i as int),
            decreases self.arguments.len() - i,
        {
            arguments.push(self.arguments[i].clone());
            proof {
                assert(arguments@ =~= self.arguments@.subrange(0, i + 1));
            }
            i = i + 1;
        }
        proof {
            assert(arguments@ =~= self.arguments@);
        }
        ProgramInstruction { line_number: self.line_number, command: self.command.clone(), arguments }
    }
}

impl ProgramInstruction {
    /// A new instruction with the given line number, command and
    /// arguments.
    pub fn new(line_number: i32, command: String, arguments: Vec<String>) -> (r: ProgramInstruction)
        ensures
            r == (ProgramInstruction { line_number, command, arguments }),
    {
        ProgramInstruction { line_number, command, arguments }
    }

    /// The instruction rendered as its command followed by its arguments.
    pub fn display_string(&self) -> (r: String)
        ensures
            r@ == spec_instruction_display(*self),
    {
        if self.arguments.len() == 0 {
            self.command.clone()
        } else {
            let joined = join_with_spaces(&self.arguments);
            self.command.clone().concat(" ").concat(joined.as_str())
        }
    }
}

/// An instruction rendered as text: the command, then its arguments
/// separated by spaces.
pub open spec fn spec_instruction_display(i: ProgramInstruction) -> Seq<char> {
    if i.arguments@.len() == 0 {
        i.command@
    } else {
        i.command@ + " "@ + spec_join(i.arguments.deep_view(), " "@)
    }
}

/// A line number as the display prefixes it: zero-padded to two digits.
pub open spec fn spec_line_prefix(line: int) -> Seq<char> {
    if 0 <= line < 10 {
        seq!['0', crate::text::spec_digit_char(line)]
    } else if line >= 10 {
        spec_u64_digits(line)
    } else {
        crate::text::spec_i64_digits(line)
    }
}

/// The line under the active cursor rendered as "NN CMD ARGS", or the
/// given end marker when the cursor is past the program.
pub open spec fn spec_cursor_message(p: ProgrammingMode, end_text: Seq<char>) -> Seq<char> {
    let idx = if p.is_programming {
        p.edit_position as int
    } else {
        p.program_counter as int
    };
    if idx < p.program@.len() {
        spec_line_prefix(p.program@[idx].line_number as int) + " "@ + spec_instruction_display(
            p.program@[idx],
        )
    } else {
        end_text
    }
}

/// The program-step line of the display: the line under the active
/// cursor, or an end marker (carrying the next line number while
/// programming).
pub open spec fn spec_step_display(p: ProgrammingMode) -> Seq<char> {
    if p.is_programming {
        if p.edit_position < p.program@.len() {
            spec_line_prefix(p.program@[p.edit_position as int].line_number as int) + " "@
                + spec_instruction_display(p.program@[p.edit_position as int])
        } else {
            spec_line_prefix(p.current_line as int) + " .END."@
        }
    } else if p.program_counter < p.program@.len() {
        spec_line_prefix(p.program@[p.program_counter as int].line_number as int) + " "@
            + spec_instruction_display(p.program@[p.program_counter as int])
    } else {
        ".END."@
    }
}

/// One entry of the derived label table.
#[derive(Debug)]
pub struct LabelEntry {
    /// The label name, uppercased.
    pub name: String,
    /// The line number the label was recorded at.
    pub line: i32,
}

/// The label table a program derives: one entry per LBL instruction that
/// carries an argument, in program order.
pub open spec fn spec_label_table(prog: Seq<ProgramInstruction>) -> Seq<LabelEntry> {
    prog.filter(|i: ProgramInstruction| i.command@ == "LBL"@ && i.arguments@.len() > 0).map_values(
        |i: ProgramInstruction| LabelEntry { name: i.arguments@[0], line: i.line_number },
    )
}

/// The recorded line of a label: the last entry with this name wins, as a
/// rebuild overwrites earlier duplicates.
pub open spec fn spec_label_lookup(labels: Seq<LabelEntry>, name: Seq<char>) -> Option<i32>
    decreases labels.len(),
{
    if labels.len() == 0 {
        None
    } else if labels.last().name@ == name {
        Some(labels.last().line)
    } else {
        spec_label_lookup(labels.drop_last(), name)
    }
}

/// The first index whose instruction's line number is at least `target`.
pub open spec fn spec_first_line_ge(prog: Seq<ProgramInstruction>, target: int) -> Option<int>
    decreases prog.len(),
{
    if prog.len() == 0 {
        None
    } else if prog[0].line_number >= target {
        Some(0)
    } else {
        match spec_first_line_ge(prog.drop_first(), target) {
            Some(j) => Some(j + 1),
            None => None,
        }
    }
}

/// The program with its lines renumbered densely from one.
pub open spec fn spec_renumbered(prog: Seq<ProgramInstruction>) -> Seq<ProgramInstruction> {
    Seq::new(
        prog.len(),
        |i: int|
            ProgramInstruction {
                line_number: (i + 1) as i32,
                command: prog[i].command,
                arguments: prog[i].arguments,
            },
    )
}

/// A list of argument tokens, each uppercased.
pub open spec fn spec_upper_args(a: Seq<Seq<char>>) -> Seq<Seq<char>> {
    a.map_values(|t: Seq<char>| spec_upper_seq(t))
}

/// What recording an instruction guarantees: outside programming mode or
/// with the program full nothing changes and false is reported; otherwise
/// the instruction lands at the edit cursor with its command and arguments
/// uppercased, the program is renumbered densely, the label table rebuilt,
/// and the edit cursor steps past it.
pub open spec fn add_instruction_ensures(
    pre: ProgrammingMode,
    post: ProgrammingMode,
    command: Seq<char>,
    args: Seq<Seq<char>>,
    r: bool,
) -> bool {
    &&& r == (pre.is_programming && pre.program@.len() < MAX_PROGRAM_LINES)
    &&& (!r ==> post == pre)
    &&& (r ==> ({
        let pos = if pre.edit_position >= pre.program@.len() {
            pre.program@.len() as int
        } else {
            pre.edit_position as int
        };
        let inserted = pre.program@.insert(pos, post.program@[pos]);
        &&& post.program@ == spec_renumbered(inserted)
        &&& post.program@.len() == pre.program@.len() + 1
        &&& post.program@[pos].command@ == spec_upper_seq(command)
        &&& post.program@[pos].arguments.deep_view() == spec_upper_args(args)
        &&& post.labels@ == spec_label_table(post.program@)
        &&& post.edit_position == pre.edit_position + 1
        &&& post.current_line == post.program@.len() + 2
        &&& post.program_counter == pre.program_counter
        &&& post.is_programming == pre.is_programming
        &&& post.is_running == pre.is_running
        &&& post.subroutine_stack@ == pre.subroutine_stack@
    }))
}

/// Program storage and the programming/run state.
#[derive(Debug)]
pub struct ProgrammingMode {
    pub program: Vec<ProgramInstruction>,
    /// Index into the program for execution.
    pub program_counter: usize,
    pub is_running: bool,
    pub subroutine_stack: Vec<usize>,
    /// Index into the program for editing.
    pub edit_position: usize,
    pub is_programming: bool,
    pub labels: Vec<LabelEntry>,
    /// The line number given to the next added instruction.
    pub current_line: i32,
}

impl ProgrammingMode {
    /// Structural bounds: the program stays small enough for its dense
    /// 1-based line numbers, and the next line number stays in step.
    pub open spec fn wf(&self) -> bool {
        &&& self.program@.len() <= MAX_PROGRAM_LINES
        &&& self.edit_position <= self.program@.len()
        &&& self.program_counter <= MAX_PROGRAM_LINES
        &&& (forall|i: int|
            0 <= i < self.subroutine_stack@.len() ==> #[trigger] self.subroutine_stack@[i]
                <= MAX_PROGRAM_LINES)
        &&& 1 <= self.current_line <= MAX_PROGRAM_LINES as i32 + 2
    }

    /// A fresh, empty programming state.
    pub fn new() -> (r: ProgrammingMode)
        ensures
            r.program@.len() == 0,
            r.program_counter == 0,
            !r.is_running,
            r.subroutine_stack@.len() == 0,
            r.edit_position == 0,
            !r.is_programming,
            r.labels@.len() == 0,
            r.current_line == 1,
            r.wf(),
    {
        ProgrammingMode {
            program: Vec::new(),
            program_counter: 0,
            is_running: false,
            subroutine_stack: Vec::new(),
            edit_position: 0,
            is_programming: false,
            labels: Vec::new(),
            current_line: 1,
        }
    }

    /// Toggle programming mode: leaving it rebuilds the label table,
    /// entering it parks the edit cursor at the end of the program.
    pub fn toggle_programming_mode(&mut self) -> (r: bool)
        requires
            old(self).wf(),
        ensures
            r == final(self).is_programming,
            final(self).is_programming == !old(self).is_programming,
            final(self).wf(),
            final(self).program@ == old(self).program@,
            !final(self).is_programming ==> final(self).labels@ == spec_label_table(
                final(self).program@,
            ) && final(self).edit_position == old(self).edit_position,
            final(self).is_programming ==> final(self).edit_position == old(self).program@.len()
                && final(self).labels@ == old(self).labels@,
    {
        self.is_programming = !self.is_programming;
        if !self.is_programming {
            self.rebuild_label_table();
        } else {
            // When entering programming mode, position at end of program
            self.edit_position = self.program.len();
        }
        self.is_programming
    }

    /// Rebuild the label table from the program: one entry per LBL
    /// instruction with an argument.
    pub fn rebuild_label_table(&mut self)
        ensures
            *final(self) == (ProgrammingMode {
                labels: final(self).labels,
                ..*old(self)
            }),
            final(self).labels@ == spec_label_table(old(self).program@),
    {
        let mut labels: Vec<LabelEntry> = Vec::new();
        let n = self.program.len();
        let mut i: usize = 0;
        proof {
            reveal_strlit("LBL");
            assert(self.program@.subrange(0, 0) =~= Seq::<ProgramInstruction>::empty());
            lemma_label_table_empty();
        }
        while i < n
            invariant
                i <= n == self.program@.len(),
                labels@ == spec_label_table(self.program@.subrange(0, i as int)),
            decreases n - i,
        {
            let is_lbl = str_eq(self.program[i].command.as_str(), "LBL")
                && self.program[i].arguments.len() > 0;
            if is_lbl {
                labels.push(
                    LabelEntry {
                        name: self.program[i].arguments[0].clone(),
                        line: self.program[i].line_number,
                    },
                );
            }
            proof {
                lemma_label_table_push(self.program@.subrange(0, i as int), self.program@[i as int]);
                assert(self.program@.subrange(0, i + 1) =~= self.program@.subrange(
                    0,
                    i as int,
                ).push(self.program@[i as int]));
            }
            i = i + 1;
        }
        proof {
            assert(self.program@.subrange(0, n as int) =~= self.program@);
        }
        self.labels = labels;
    }

    /// Position the active cursor (the edit cursor in programming mode,
    /// the program counter otherwise) at the first instruction whose line
    /// number reaches the label's recorded line. Unknown labels, and
    /// labels whose line no instruction reaches any more, report false and
    /// change nothing.
    pub fn goto_label(&mut self, label: &str) -> (r: bool)
        requires
            old(self).wf(),
        ensures
            final(self).wf(),
            ({
                let target = spec_label_lookup(old(self).labels@, spec_upper_seq(label@));
                match target {
                    None => r == false && *final(self) == *old(self),
                    Some(t) => match spec_first_line_ge(old(self).program@, t as int) {
                        None => r == false && *final(self) == *old(self),
                        Some(idx) => r == true && (if old(self).is_programming {
                            *final(self) == (ProgrammingMode {
                                edit_position: idx as usize,
                                ..*old(self)
                            })
                        } else {
                            *final(self) == (ProgrammingMode {
                                program_counter: idx as usize,
                                ..*old(self)
                            })
                        }),
                    },
                }
            }),
    {
        let upper = str_upper(label);
        let target = match self.lookup_label(upper.as_str()) {
            Some(t) => t,
            None => {
                return false;
            },
        };
        let n = self.program.len();
        let mut i: usize = 0;
        while i < n
            invariant
                i <= n == self.program@.len(),
                forall|j: int| 0 <= j < i ==> self.program@[j].line_number < target,
                *self == *old(self),
                old(self).wf(),
                spec_label_lookup(old(self).labels@, spec_upper_seq(label@)) == Some(target),
            decreases n - i,
        {
            if self.program[i].line_number >= target {
                proof {
                    lemma_first_line_ge_at(self.program@, target as int, i as int);
                }
                if self.is_programming {
                    self.edit_position = i;
                } else {
                    self.program_counter = i;
                }
                return true;
            }
            i = i + 1;
        }
        proof {
            lemma_first_line_ge_none(self.program@, target as int);
        }
        false
    }

    /// The recorded line of a label, the last recording winning.
    fn lookup_label(&self, name: &str) -> (r: Option<i32>)
        ensures
            r == spec_label_lookup(self.labels@, name@),
    {
        let mut k = self.labels.len();
        proof {
            assert(self.labels@.subrange(0, self.labels@.len() as int) =~= self.labels@);
        }
        while k > 0
            invariant
                k <= self.labels@.len(),
                spec_label_lookup(self.labels@, name@) == spec_label_lookup(
                    self.labels@.subrange(0, k as int),
                    name@,
                ),
            decreases k,
        {
            k = k - 1;
            proof {
                assert(self.labels@.subrange(0, k + 1).last() == self.labels@[k as int]);
                assert(self.labels@.subrange(0, k + 1).drop_last() =~= self.labels@.subrange(
                    0,
                    k as int,
                ));
            }
            if str_eq(self.labels[k].name.as_str(), name) {
                return Some(self.labels[k].line);
            }
        }
        proof {
            assert(self.labels@.subrange(0, 0) =~= Seq::<LabelEntry>::empty());
        }
        None
    }

    /// Jump to a label and push the pre-call position onto the subroutine
    /// stack, so that a return comes back to it.
    pub fn execute_subroutine(&mut self, label: &str) -> (r: bool)
        requires
            old(self).wf(),
        ensures
            final(self).wf(),
            ({
                let target = spec_label_lookup(old(self).labels@, spec_upper_seq(label@));
                match target {
                    None => r == false && *final(self) == *old(self),
                    Some(t) => match spec_first_line_ge(old(self).program@, t as int) {
                        None => r == false && *final(self) == *old(self),
                        Some(idx) => r == true && final(self).subroutine_stack@ == old(
                            self,
                        ).subroutine_stack@.push(old(self).program_counter) && (if old(
                            self,
                        ).is_programming {
                            final(self).edit_position == idx && final(self).program_counter == old(
                                self,
                            ).program_counter
                        } else {
                            final(self).program_counter == idx
                        }) && final(self).program@ == old(self).program@ && final(self).labels@
                            == old(self).labels@ && final(self).is_programming == old(
                            self,
                        ).is_programming && final(self).is_running == old(self).is_running,
                    },
                }
            }),
    {
        let return_to = self.program_counter;
        proof {
            let target = spec_label_lookup(old(self).labels@, spec_upper_seq(label@));
            if target is Some {
                lemma_first_line_ge_bounds(old(self).program@, target.unwrap() as int);
            }
        }
        if self.goto_label(label) {
            self.subroutine_stack.push(return_to);
            true
        } else {
            false
        }
    }

    /// Pop the subroutine stack back into the program counter; an empty
    /// stack stops run mode instead.
    pub fn return_from_subroutine(&mut self) -> (r: bool)
        requires
            old(self).wf(),
        ensures
            final(self).wf(),
            old(self).subroutine_stack@.len() > 0 ==> r == true && *final(self) == (
            ProgrammingMode {
                program_counter: old(self).subroutine_stack@.last() as usize,
                subroutine_stack: final(self).subroutine_stack,
                ..*old(self)
            }) && final(self).subroutine_stack@ == old(self).subroutine_stack@.subrange(
                0,
                old(self).subroutine_stack@.len() - 1,
            ),
            old(self).subroutine_stack@.len() == 0 ==> r == false && final(self).subroutine_stack@ == old(self).subroutine_stack@ && *final(self) == (
            ProgrammingMode {
                is_running: false,
                subroutine_stack: final(self).subroutine_stack,
                ..*old(self)
            }),
    {
        match self.subroutine_stack.pop() {
            Some(addr) => {
                self.program_counter = addr;
                true
            },
            None => {
                self.is_running = false;
                false
            },
        }
    }

    /// Record an instruction at the edit cursor while programming: the
    /// command and its arguments are stored uppercased, the program is
    /// renumbered, and the label table rebuilt. Outside programming mode,
    /// or with the program full, nothing is recorded.
    pub fn add_instruction(&mut self, command: &str, arguments: Option<Vec<String>>, _raw_input: &str) -> (r:
        bool)
        requires
            old(self).wf(),
        ensures
            final(self).wf(),
            add_instruction_ensures(
                *old(self),
                *final(self),
                command@,
                match arguments {
                    Some(a) => a.deep_view(),
                    None => Seq::empty(),
                },
                r,
            ),
    {
        if !self.is_programming {
            return false;
        }
        if self.program.len() >= MAX_PROGRAM_LINES {
            return false;
        }
        let ghost args_spec: Seq<Seq<char>> = if arguments is Some {
            arguments.unwrap().deep_view()
        } else {
            Seq::empty()
        };
        let args: Vec<String> = match arguments {
            Some(a) => a,
            None => Vec::new(),
        };
        proof {
            assert(args.deep_view() =~= args_spec);
        }
        let mut upper_args: Vec<String> = Vec::new();
        let mut i: usize = 0;
        while i < args.len()
            invariant
                i <= args.len(),
                upper_args@.len() == i,
                forall|k: int|
                    0 <= k < i ==> (#[trigger] upper_args@[k])@ == spec_upper_seq(args@[k]@),
            decreases args.len() - i,
        {
            upper_args.push(str_upper(args[i].as_str()));
            i = i + 1;
        }
        proof {
            assert(upper_args.deep_view() =~= spec_upper_args(args.deep_view()));
        }
        let instruction = ProgramInstruction::new(self.current_line, str_upper(command), upper_args);
        // Insert at current edit position
        self.insert_at_edit_position(instruction);
        self.current_line = self.current_line + 1;
        self.edit_position = self.edit_position + 1;
        proof {
            let pos = if old(self).edit_position >= old(self).program@.len() {
                old(self).program@.len() as int
            } else {
                old(self).edit_position as int
            };
            assert(self.program@ == spec_renumbered(
                old(self).program@.insert(pos, self.program@[pos]),
            ));
            assert(self.program@[pos].arguments.deep_view() == instruction.arguments.deep_view());
            assert(instruction.arguments.deep_view() == upper_args.deep_view());
            assert(upper_args.deep_view() == spec_upper_args(args_spec));
        }
        true
    }

    /// Insert at the edit cursor (or append past the end), then renumber
    /// the whole program and rebuild the label table.
    pub fn insert_at_edit_position(&mut self, instruction: ProgramInstruction)
        requires
            old(self).program@.len() < MAX_PROGRAM_LINES,
        ensures
            ({
                let pos = if old(self).edit_position >= old(self).program@.len() {
                    old(self).program@.len() as int
                } else {
                    old(self).edit_position as int
                };
                let inserted = old(self).program@.insert(pos, instruction);
                &&& final(self).program@ == spec_renumbered(inserted)
                &&& final(self).labels@ == spec_label_table(final(self).program@)
                &&& final(self).current_line == final(self).program@.len() + 1
                &&& final(self).program@[pos].command@ == instruction.command@
                &&& final(self).program@[pos].arguments == instruction.arguments
                &&& final(self).program@[pos].arguments.deep_view()
                    == instruction.arguments.deep_view()
            }),
            final(self).program@.len() == old(self).program@.len() + 1,
            final(self).program_counter == old(self).program_counter,
            final(self).edit_position == old(self).edit_position,
            final(self).is_programming == old(self).is_programming,
            final(self).is_running == old(self).is_running,
            final(self).subroutine_stack@ == old(self).subroutine_stack@,
    {
        if self.edit_position >= self.program.len() {
            // Insert at end
            proof {
                assert(self.program@.insert(self.program@.len() as int, instruction)
                    =~= self.program@.push(instruction));
            }
            self.program.push(instruction);
        } else {
            // Insert in middle, shift everything else down
            self.program.insert(self.edit_position, instruction);
        }
        // Renumber all instructions after insertion
        self.renumber_program();
    }

    /// Renumber the program densely from one, set the next line number,
    /// and rebuild the label table.
    fn renumber_program(&mut self)
        requires
            old(self).program@.len() <= MAX_PROGRAM_LINES,
        ensures
            final(self).program@ == spec_renumbered(old(self).program@),
            final(self).labels@ == spec_label_table(final(self).program@),
            final(self).current_line == final(self).program@.len() + 1,
            final(self).program@.len() == old(self).program@.len(),
            final(self).program_counter == old(self).program_counter,
            final(self).edit_position == old(self).edit_position,
            final(self).is_programming == old(self).is_programming,
            final(self).is_running == old(self).is_running,
            final(self).subroutine_stack@ == old(self).subroutine_stack@,
    {
        let n = self.program.len();
        let mut i: usize = 0;
        while i < n
            invariant
                i <= n == self.program@.len(),
                n <= MAX_PROGRAM_LINES,
                forall|j: int|
                    i <= j < n ==> #[trigger] self.program@[j] == old(self).program@[j],
                forall|j: int|
                    0 <= j < i ==> #[trigger] self.program@[j] == (ProgramInstruction {
                        line_number: (j + 1) as i32,
                        command: old(self).program@[j].command,
                        arguments: old(self).program@[j].arguments,
                    }),
                self.program_counter == old(self).program_counter,
                self.edit_position == old(self).edit_position,
                self.is_programming == old(self).is_programming,
                self.is_running == old(self).is_running,
                self.subroutine_stack@ == old(self).subroutine_stack@,
                self.labels@ == old(self).labels@,
                self.current_line == old(self).current_line,
            decreases n - i,
        {
            let command = self.program[i].command.clone();
            let mut arguments: Vec<String> = Vec::new();
            core::mem::swap(&mut arguments, &mut self.program[i].arguments);
            let updated = ProgramInstruction {
                line_number: (i + 1) as i32,
                command,
                arguments,
            };
            self.program.set(i, updated);
            i = i + 1;
        }
        proof {
            assert(self.program@ =~= spec_renumbered(old(self).program@));
        }
        self.current_line = self.program.len() as i32 + 1;
        self.rebuild_label_table();
    }

    /// Delete the instruction at the edit cursor, renumbering what
    /// remains; only allowed in programming mode.
    pub fn delete_current_instruction(&mut self) -> (r: Result<Option<String>, String>)
        requires
            old(self).wf(),
        ensures
            final(self).wf(),
            !old(self).is_programming ==> *final(self) == *old(self) && (r matches Err(m) && m@
                == "Not in programming mode"@),
            old(self).is_programming && old(self).edit_position >= old(self).program@.len()
                ==> *final(self) == *old(self) && (r matches Err(m) && m@
                == "No instruction to delete"@),
            old(self).is_programming && old(self).edit_position < old(self).program@.len() ==> ({
                &&& final(self).program@ == spec_renumbered(
                    old(self).program@.remove(old(self).edit_position as int),
                )
                &&& final(self).labels@ == spec_label_table(final(self).program@)
                &&& final(self).edit_position == old(self).edit_position
                &&& r is Ok
            }),
    {
        if !self.is_programming {
            return Err(String::from_str("Not in programming mode"));
        }
        if self.edit_position < self.program.len() {
            let deleted = self.program.remove(self.edit_position);
            self.renumber_program();
            // Stay at same position, but show what's now there
            if self.edit_position < self.program.len() {
                let line = line_prefix(self.program[self.edit_position].line_number);
                let shown = self.program[self.edit_position].display_string();
                Ok(
                    Some(
                        String::from_str("Deleted: ").concat(
                            deleted.display_string().as_str(),
                        ).concat(" | Now: ").concat(line.as_str()).concat(" ").concat(
                            shown.as_str(),
                        ),
                    ),
                )
            } else {
                Ok(
                    Some(
                        String::from_str("Deleted: ").concat(
                            deleted.display_string().as_str(),
                        ).concat(" | At end"),
                    ),
                )
            }
        } else {
            Err(String::from_str("No instruction to delete"))
        }
    }

    /// Insert by line number: replace an instruction with the same line
    /// number, insert before the first higher one, or append. No
    /// renumbering happens here.
    pub fn insert_at_line(&mut self, instruction: ProgramInstruction)
        requires
            old(self).program@.len() < MAX_PROGRAM_LINES,
        ensures
            ({
                match spec_first_line_ge(old(self).program@, instruction.line_number as int) {
                    Some(pos) => if old(self).program@[pos].line_number
                        == instruction.line_number {
                        final(self).program@ == old(self).program@.update(pos, instruction)
                    } else {
                        final(self).program@ == old(self).program@.insert(pos, instruction)
                    },
                    None => final(self).program@ == old(self).program@.push(instruction),
                }
            }),
    {
        let n = self.program.len();
        let mut i: usize = 0;
        while i < n
            invariant
                i <= n == self.program@.len(),
                forall|j: int|
                    0 <= j < i ==> self.program@[j].line_number < instruction.line_number,
                *self == *old(self),
            decreases n - i,
        {
            if self.program[i].line_number >= instruction.line_number {
                proof {
                    lemma_first_line_ge_at(self.program@, instruction.line_number as int, i as int);
                }
                if self.program[i].line_number == instruction.line_number {
                    self.program.set(i, instruction);
                } else {
                    self.program.insert(i, instruction);
                }
                return ;
            }
            i = i + 1;
        }
        proof {
            lemma_first_line_ge_none(self.program@, instruction.line_number as int);
        }
        self.program.push(instruction);
    }

    /// Clear the program, both cursors, the label table and the
    /// subroutine stack.
    pub fn clear_program(&mut self)
        ensures
            final(self).program@.len() == 0,
            final(self).labels@.len() == 0,
            final(self).program_counter == 0,
            final(self).edit_position == 0,
            final(self).current_line == 1,
            !final(self).is_running,
            final(self).subroutine_stack@.len() == 0,
            final(self).is_programming == old(self).is_programming,
            final(self).wf(),
    {
        self.program = Vec::new();
        self.labels = Vec::new();
        self.program_counter = 0;
        self.edit_position = 0;
        self.current_line = 1;
        self.is_running = false;
        self.subroutine_stack = Vec::new();
    }

    /// The instruction under the active cursor, if any: the edit cursor
    /// in programming mode, the program counter otherwise.
    pub fn get_current_instruction(&self) -> (r: Option<&ProgramInstruction>)
        ensures
            ({
                let idx = if self.is_programming {
                    self.edit_position as int
                } else {
                    self.program_counter as int
                };
                match r {
                    Some(instr) => idx < self.program@.len() && *instr == self.program@[idx],
                    None => idx >= self.program@.len(),
                }
            }),
    {
        if self.is_programming {
            if self.edit_position < self.program.len() {
                Some(&self.program[self.edit_position])
            } else {
                None
            }
        } else {
            if self.program_counter < self.program.len() {
                Some(&self.program[self.program_counter])
            } else {
                None
            }
        }
    }

    /// The line under the active cursor rendered for the program display,
    /// or an end-of-program marker.
    pub fn get_current_step_display(&self) -> (r: String)
        requires
            self.wf(),
        ensures
            r@ == spec_step_display(*self),
    {
        if self.is_programming {
            if self.edit_position < self.program.len() {
                let instr = &self.program[self.edit_position];
                let line = line_prefix(instr.line_number);
                line.concat(" ").concat(instr.display_string().as_str())
            } else {
                line_prefix(self.current_line).concat(" .END.")
            }
        } else if self.program_counter < self.program.len() {
            let instr = &self.program[self.program_counter];
            let line = line_prefix(instr.line_number);
            line.concat(" ").concat(instr.display_string().as_str())
        } else {
            String::from_str(".END.")
        }
    }

    /// Step the edit cursor forward, showing the step now under it or an
    /// end-of-program marker.
    pub fn sst_edit(&mut self) -> (r: Result<Option<String>, String>)
        requires
            old(self).wf(),
        ensures
            final(self).wf(),
            r is Ok,
            old(self).edit_position < old(self).program@.len() ==> *final(self) == (
            ProgrammingMode { edit_position: (old(self).edit_position + 1) as usize, ..*old(self) }),
            old(self).edit_position >= old(self).program@.len() ==> *final(self) == *old(self),
    {
        if self.edit_position < self.program.len() {
            self.edit_position = self.edit_position + 1;
            if self.edit_position < self.program.len() {
                let instr = &self.program[self.edit_position];
                let line = line_prefix(instr.line_number);
                Ok(Some(line.concat(" ").concat(instr.display_string().as_str())))
            } else {
                Ok(Some(line_prefix(self.current_line).concat(" .END.")))
            }
        } else {
            Ok(Some(line_prefix(self.current_line).concat(" .END.")))
        }
    }

    /// Step the program counter backward without executing.
    pub fn bst_execute(&mut self) -> (r: Result<Option<String>, String>)
        requires
            old(self).wf(),
        ensures
            final(self).wf(),
            r is Ok,
            old(self).program_counter > 0 ==> *final(self) == (ProgrammingMode {
                program_counter: (old(self).program_counter - 1) as usize,
                ..*old(self)
            }) && final(self).program_counter < old(self).program@.len() ==> true,
            old(self).program_counter == 0 ==> *final(self) == *old(self),
    {
        if self.program_counter > 0 {
            self.program_counter = self.program_counter - 1;
            if self.program_counter < self.program.len() {
                let instr = &self.program[self.program_counter];
                let line = line_prefix(instr.line_number);
                Ok(
                    Some(
                        String::from_str("BST: ").concat(line.as_str()).concat(" ").concat(
                            instr.display_string().as_str(),
                        ),
                    ),
                )
            } else {
                Ok(Some(String::from_str("BST: at end")))
            }
        } else {
            Ok(Some(String::from_str("Beginning of program")))
        }
    }

    /// Step the edit cursor backward, showing the step now under it.
    pub fn bst_edit(&mut self) -> (r: Result<Option<String>, String>)
        requires
            old(self).wf(),
        ensures
            final(self).wf(),
            r is Ok,
            old(self).edit_position > 0 ==> *final(self) == (ProgrammingMode {
                edit_position: (old(self).edit_position - 1) as usize,
                ..*old(self)
            }),
            old(self).edit_position == 0 ==> *final(self) == *old(self),
    {
        if self.edit_position > 0 {
            self.edit_position = self.edit_position - 1;
            if self.edit_position < self.program.len() {
                let instr = &self.program[self.edit_position];
                let line = line_prefix(instr.line_number);
                Ok(Some(line.concat(" ").concat(instr.display_string().as_str())))
            } else {
                Ok(Some(String::from_str("Beginning of program")))
            }
        } else {
            Ok(Some(String::from_str("Beginning of program")))
        }
    }
}

/// A line number zero-padded to at least two digits.
pub fn line_prefix(line: i32) -> (r: String)
    ensures
        r@ == spec_line_prefix(line as int),
{
    if line < 0 {
        // Line numbers are 1-based; a negative one can only come from a
        // hand-built instruction and is shown as-is.
        crate::text::i64_to_string(line as i64)
    } else {
        two_digit_string(line as u64)
    }
}

/// The label table of the empty program is empty.
proof fn lemma_label_table_empty()
    ensures
        spec_label_table(Seq::<ProgramInstruction>::empty()) =~= Seq::<LabelEntry>::empty(),
{
    reveal(Seq::filter);
}

/// Extending a program extends its label table by at most the new entry.
proof fn lemma_label_table_push(prog: Seq<ProgramInstruction>, instr: ProgramInstruction)
    ensures
        instr.command@ == "LBL"@ && instr.arguments@.len() > 0 ==> spec_label_table(
            prog.push(instr),
        ) == spec_label_table(prog).push(
            LabelEntry { name: instr.arguments@[0], line: instr.line_number },
        ),
        !(instr.command@ == "LBL"@ && instr.arguments@.len() > 0) ==> spec_label_table(
            prog.push(instr),
        ) == spec_label_table(prog),
{
    let pred = |i: ProgramInstruction| i.command@ == "LBL"@ && i.arguments@.len() > 0;
    let f = |i: ProgramInstruction| LabelEntry { name: i.arguments@[0], line: i.line_number };
    prog.lemma_filter_push(instr, pred);
    if pred(instr) {
        assert(prog.filter(pred).push(instr).map_values(f) =~= prog.filter(pred).map_values(
            f,
        ).push(f(instr)));
    }
}

/// When everything before `i` is below the target and `i` reaches it, `i`
/// is the first index at or after the target line.
proof fn lemma_first_line_ge_at(prog: Seq<ProgramInstruction>, target: int, i: int)
    requires
        0 <= i < prog.len(),
        prog[i].line_number >= target,
        forall|j: int| 0 <= j < i ==> prog[j].line_number < target,
    ensures
        spec_first_line_ge(prog, target) == Some(i),
    decreases i,
{
    if i > 0 {
        lemma_first_line_ge_at(prog.drop_first(), target, i - 1);
    }
}

/// A found first index is a valid program index.
pub proof fn lemma_first_line_ge_bounds(prog: Seq<ProgramInstruction>, target: int)
    ensures
        spec_first_line_ge(prog, target) matches Some(idx) ==> 0 <= idx < prog.len(),
    decreases prog.len(),
{
    if prog.len() > 0 && prog[0].line_number < target {
        lemma_first_line_ge_bounds(prog.drop_first(), target);
    }
}

/// When no line reaches the target, there is no first index.
proof fn lemma_first_line_ge_none(prog: Seq<ProgramInstruction>, target: int)
    requires
        forall|j: int| 0 <= j < prog.len() ==> prog[j].line_number < target,
    ensures
        spec_first_line_ge(prog, target) is None,
    decreases prog.len(),
{
    if prog.len() > 0 {
        lemma_first_line_ge_none(prog.drop_first(), target);
    }
}

} // verus!

//! A verified CHIP-8 core: a cycle-accurate interpreter for the classic
//! 16-register virtual machine, and a two-pass assembler that turns mnemonic
//! source text into a loadable ROM image.
//!
//! The interpreter side models the machine exactly: 4 KiB of RAM with the
//! hexadecimal font preloaded, sixteen 8-bit V registers, a 16-entry call
//! stack of 12-bit addresses, two 8-bit down-counting timers, a 16-key
//! keypad bitmask, and a 64x32 monochrome XOR-blitted display.  Every
//! instruction's effect on that state is stated in contracts and proved.
//!
//! The assembler side tokenizes source lines, matches them against the
//! instruction templates, resolves forward label references in a second
//! pass, and emits big-endian machine words whose decoding is proved to
//! agree with the source.

mod address;
mod asm_error;
mod assembler;
mod display;
mod emulator;
mod error;
mod keyboard;
mod labels;
mod memory;
mod memory_slices;
mod opcode;
mod rand;
mod register;
mod stack;
mod tokenizer;
mod timer;

pub use address::Address;
pub use address::ENTRY_POINT;
pub use asm_error::Error;
pub use asm_error::ErrorView;
pub use assembler::assemble;
pub use assembler::spec_assemble_source;
pub use assembler::spec_pass1_results;
pub use assembler::canonical_tokens;
pub use assembler::lemma_mnemonic_reassembles;
pub use assembler::is_label_def_line;
pub use assembler::label_name;
pub use assembler::defines_label;
pub use assembler::lemma_pass1_labels;
pub use assembler::lemma_pass1_len;
pub use assembler::lemma_pass1_slot;
pub use assembler::lemma_duplicate_label_source;
pub use assembler::slot_fails;
pub use assembler::slot_error;
pub use assembler::lemma_pass2_total;
pub use assembler::lemma_pass2_first_error;
pub use assembler::lemma_undefined_label_source;
pub use assembler::spec_cast;
pub use assembler::spec_pass2;
pub use assembler::Kw;
pub use assembler::spec_kw;
pub use assembler::cursor1;
pub use assembler::cursor2;
pub use assembler::label_word;
pub use assembler::res_view;
pub use assembler::cast_addr;
pub use assembler::cast_label;
pub use assembler::cast_op;
pub use assembler::cast_bad;
pub use assembler::cast_xkk;
pub use display::Display;
pub use emulator::Emulator;
pub use emulator::State;
pub use emulator::bcd;
pub use emulator::tick_effect;
pub use emulator::exec_effect;
pub use display::WIDTH;
pub use display::HEIGHT;
pub use error::EmulatorError;
pub use keyboard::Key;
pub use keyboard::map_key;
pub use keyboard::spec_map_key;
pub use keyboard::KeyBoard;
pub use labels::LabelMap;
pub use labels::bytes_eq;
pub use labels::spec_lookup;
pub use labels::spec_has_label;
pub use memory::Memory;
pub use opcode::Opcode;
pub use opcode::spec_decode;
pub use opcode::lemma_word_roundtrip;
pub use opcode::lemma_encode_decode;
pub use opcode::lemma_decode_encode;
pub use opcode::spec_encode;
pub use rand::RandGen;
pub use rand::lcg_next;
pub use rand::lcg_output;
pub use memory::MEMORY_SIZE;
pub use memory::FONT_SET_LEN;
pub use memory::font_set;
pub use memory::rom_loaded;
pub use memory_slices::MemorySlices;
pub use memory_slices::SliceView;
pub use memory_slices::spec_write;
pub use memory_slices::word_bytes;
pub use memory_slices::pending_word;
pub use register::RegisterIndex;
pub use register::VRegisters;
pub use register::REGISTER_COUNT;
pub use stack::Stack;
pub use stack::STACK_SIZE;
pub use tokenizer::Token;
pub use tokenizer::Line;
pub use tokenizer::Tokenizer;
pub use tokenizer::token_wf;
pub use tokenizer::token_view_wf;
pub use tokenizer::TokenView;
pub use tokenizer::LineView;
pub use tokenizer::spec_parse_number;
pub use tokenizer::spec_next_token;
pub use tokenizer::spec_get_line;
pub use tokenizer::spec_get_line_from;
pub use tokenizer::spec_tokenize;
pub use tokenizer::spec_find_sep;
pub use tokenizer::spec_find_nl;
pub use tokenizer::bump_line;
pub use tokenizer::is_separator;
pub use tokenizer::hex_digit_val;
pub use tokenizer::spec_is_hex_digit;
pub use tokenizer::parse_number;
pub use timer::Timer;

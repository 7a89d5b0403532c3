//! The virtual-machine block-length scanner: a static traversal of
//! bytecode that computes the length in bytes of a control-flow region,
//! from its opener (`Begin`, `Loop`, `If` or `Else`) to the matching `End`
//! inclusive. The scanner skips in-line operands without interpreting
//! them; an unknown opcode, a depth underflow or a premature end of the
//! buffer is a parse failure.

use vstd::prelude::*;

verus! {

/// Opcode of `Halt`.
pub const OP_HALT: u8 = 0x00;

/// Opcode of `Nop`.
pub const OP_NOP: u8 = 0x01;

/// Opcode of `Begin`: opens a block; followed by an arity byte.
pub const OP_BEGIN: u8 = 0x02;

/// Opcode of `Loop`: opens a loop; followed by an arity byte.
pub const OP_LOOP: u8 = 0x03;

/// Opcode of `If`: opens a conditional; followed by an arity byte and a
/// comparator opcode that both belong to the header.
pub const OP_IF: u8 = 0x04;

/// Opcode of `Else`: opens the alternative branch; followed by an arity
/// byte.
pub const OP_ELSE: u8 = 0x05;

/// Opcode of `End`: closes the innermost open region.
pub const OP_END: u8 = 0x06;

/// Opcode of `Break`.
pub const OP_BREAK: u8 = 0x07;

/// Opcode of `BreakIf`.
pub const OP_BREAK_IF: u8 = 0x08;

/// Opcode of `Return`.
pub const OP_RETURN: u8 = 0x09;

/// Opcode of `Call`: followed by a two-byte function index.
pub const OP_CALL: u8 = 0x0a;

/// Opcode of `PickLocal`: followed by a two-byte stack index.
pub const OP_PICK_LOCAL: u8 = 0x0b;

/// Opcode of `PickOperand`.
pub const OP_PICK_OPERAND: u8 = 0x0c;

/// Opcode of `PushLocal`: followed by an argument list; an indirect
/// argument pops from the operand stack.
pub const OP_PUSH_LOCAL: u8 = 0x0d;

/// Opcode of `PushOperand`: followed by an argument list; an indirect
/// argument pops from the locals stack.
pub const OP_PUSH_OPERAND: u8 = 0x0e;

/// Opcode of `PopLocal`.
pub const OP_POP_LOCAL: u8 = 0x0f;

/// Opcode of `PopOperand`.
pub const OP_POP_OPERAND: u8 = 0x10;

/// Opcode of `Add`.
pub const OP_ADD: u8 = 0x11;

/// Opcode of `Sub`.
pub const OP_SUB: u8 = 0x12;

/// Opcode of `Eq`.
pub const OP_EQ: u8 = 0x13;

/// Opcode of `LtSigned`.
pub const OP_LT_SIGNED: u8 = 0x14;

/// Type opcode of a 32-bit integer constant.
pub const OP_I32_CONST: u8 = 0x20;

/// Type opcode of a 64-bit integer constant.
pub const OP_I64_CONST: u8 = 0x21;

/// Type opcode of a 32-bit float constant.
pub const OP_F32_CONST: u8 = 0x22;

/// Type opcode of a 64-bit float constant.
pub const OP_F64_CONST: u8 = 0x23;

/// First opcode of the typed load family; each load carries a two-byte
/// address.
pub const OP_LOAD_FIRST: u8 = 0x30;

/// Opcode of `i64Load`.
pub const OP_I64_LOAD: u8 = 0x35;

/// Last opcode of the typed load family.
pub const OP_LOAD_LAST: u8 = 0x3d;

/// First opcode of the typed store family; each store carries a two-byte
/// address.
pub const OP_STORE_FIRST: u8 = 0x40;

/// Opcode of `i64Store`.
pub const OP_I64_STORE: u8 = 0x43;

/// Last opcode of the typed store family.
pub const OP_STORE_LAST: u8 = 0x48;

/// A value type of the virtual machine.
#[derive(Clone, Copy, Debug, PartialEq, Eq, Structural)]
pub enum VmType {
    I32,
    I64,
    F32,
    F64,
}

impl VmType {
    /// The width in bytes of an immediate value of this type.
    pub fn byte_size(&self) -> (r: u8)
        ensures
            r == self.spec_byte_size(),
    {
        match self {
            VmType::I32 => 4,
            VmType::I64 => 8,
            VmType::F32 => 4,
            VmType::F64 => 8,
        }
    }

    pub open spec fn spec_byte_size(&self) -> u8 {
        match self {
            VmType::I32 => 4,
            VmType::I64 => 8,
            VmType::F32 => 4,
            VmType::F64 => 8,
        }
    }

    /// The value type a constant type-opcode denotes, if any.
    pub fn from_op(op: u8) -> (r: Option<VmType>)
        ensures
            r == spec_vmtype(op),
    {
        if op == OP_I32_CONST {
            Some(VmType::I32)
        } else if op == OP_I64_CONST {
            Some(VmType::I64)
        } else if op == OP_F32_CONST {
            Some(VmType::F32)
        } else if op == OP_F64_CONST {
            Some(VmType::F64)
        } else {
            None
        }
    }
}

/// The value type a constant type-opcode denotes, if any.
pub open spec fn spec_vmtype(op: u8) -> Option<VmType> {
    if op == OP_I32_CONST {
        Some(VmType::I32)
    } else if op == OP_I64_CONST {
        Some(VmType::I64)
    } else if op == OP_F32_CONST {
        Some(VmType::F32)
    } else if op == OP_F64_CONST {
        Some(VmType::F64)
    } else {
        None
    }
}

/// The size in bytes of an immediate of the type `op` denotes, if any.
pub open spec fn spec_vmtype_size(op: u8) -> Option<u8> {
    match spec_vmtype(op) {
        Some(t) => Some(t.spec_byte_size()),
        None => None,
    }
}

/// A typed load opcode.
pub open spec fn spec_is_load(op: u8) -> bool {
    OP_LOAD_FIRST <= op <= OP_LOAD_LAST
}

/// A typed store opcode.
pub open spec fn spec_is_store(op: u8) -> bool {
    OP_STORE_FIRST <= op <= OP_STORE_LAST
}

/// How the scanner treats an opcode.
#[derive(Clone, Copy, Debug, PartialEq, Eq, Structural)]
pub enum OpClass {
    /// Opens a region; `header` bytes belong to the opener, the opcode
    /// included.
    Opener { header: u8 },
    /// Closes the innermost region.
    End,
    /// Carries `extra` in-line operand bytes after the opcode.
    FixedOperand { extra: u8 },
    /// Opens an argument list; an indirect argument starts with `pop`.
    Push { pop: u8 },
    /// A plain one-byte instruction.
    Plain,
    /// Not an instruction; scanning fails.
    Unknown,
}

/// The scanner's classification of an opcode.
pub open spec fn spec_classify(op: u8) -> OpClass {
    if op == OP_BEGIN || op == OP_LOOP || op == OP_ELSE {
        OpClass::Opener { header: 2 }
    } else if op == OP_IF {
        OpClass::Opener { header: 3 }
    } else if op == OP_END {
        OpClass::End
    } else if op == OP_CALL || op == OP_PICK_LOCAL || spec_is_load(op) || spec_is_store(op) {
        OpClass::FixedOperand { extra: 2 }
    } else if op == OP_PUSH_LOCAL {
        OpClass::Push { pop: OP_POP_OPERAND }
    } else if op == OP_PUSH_OPERAND {
        OpClass::Push { pop: OP_POP_LOCAL }
    } else if op <= OP_LT_SIGNED || spec_vmtype(op) is Some {
        OpClass::Plain
    } else {
        OpClass::Unknown
    }
}

/// Classifies an opcode for the scanner.
pub fn classify(op: u8) -> (r: OpClass)
    ensures
        r == spec_classify(op),
{
    if op == OP_BEGIN || op == OP_LOOP || op == OP_ELSE {
        OpClass::Opener { header: 2 }
    } else if op == OP_IF {
        OpClass::Opener { header: 3 }
    } else if op == OP_END {
        OpClass::End
    } else if op == OP_CALL || op == OP_PICK_LOCAL || (OP_LOAD_FIRST <= op && op <= OP_LOAD_LAST)
        || (OP_STORE_FIRST <= op && op <= OP_STORE_LAST) {
        OpClass::FixedOperand { extra: 2 }
    } else if op == OP_PUSH_LOCAL {
        OpClass::Push { pop: OP_POP_OPERAND }
    } else if op == OP_PUSH_OPERAND {
        OpClass::Push { pop: OP_POP_LOCAL }
    } else if op <= OP_LT_SIGNED || op == OP_I32_CONST || op == OP_I64_CONST || op == OP_F32_CONST
        || op == OP_F64_CONST {
        OpClass::Plain
    } else {
        OpClass::Unknown
    }
}

/// Whether bit `j` of the reference bitmask selects the indirect form for
/// argument `j`; bit zero is the least significant bit.
pub open spec fn spec_bit_at(mask: u8, j: int) -> bool {
    (mask >> (j as u8)) & 1 == 1
}

/// The position right after the value bytes of the remaining arguments of
/// a push instruction, scanning types from `tpos + j` and values from
/// `vpos`; `None` on a malformed list.
pub open spec fn spec_push_vals(
    b: Seq<u8>,
    tpos: int,
    vpos: int,
    j: int,
    arity: int,
    mask: u8,
    pop: u8,
) -> Option<int>
    decreases arity - j,
{
    if j >= arity {
        Some(vpos)
    } else if j >= 8 {
        None
    } else if tpos + j >= b.len() || tpos + j < 0 {
        None
    } else {
        match spec_vmtype_size(b[tpos + j]) {
            None => None,
            Some(sz) => {
                if spec_bit_at(mask, j) {
                    if vpos >= b.len() || vpos < 0 {
                        None
                    } else if b[vpos] == pop {
                        spec_push_vals(b, tpos, vpos + 1, j + 1, arity, mask, pop)
                    } else if spec_is_load(b[vpos]) {
                        spec_push_vals(b, tpos, vpos + 3, j + 1, arity, mask, pop)
                    } else {
                        None
                    }
                } else {
                    spec_push_vals(b, tpos, vpos + sz, j + 1, arity, mask, pop)
                }
            },
        }
    }
}

/// An argument list whose arity exceeds the eight bitmask bits never
/// scans: the scan fails at the ninth argument if not earlier.
pub proof fn lemma_push_vals_big_arity(
    b: Seq<u8>,
    tpos: int,
    vpos: int,
    j: int,
    arity: int,
    mask: u8,
    pop: u8,
)
    requires
        0 <= j <= 8,
        arity > 8,
    ensures
        spec_push_vals(b, tpos, vpos, j, arity, mask, pop) is None,
    decreases arity - j,
{
    if j < 8 && tpos + j < b.len() && tpos + j >= 0 {
        match spec_vmtype_size(b[tpos + j]) {
            None => {},
            Some(sz) => {
                if spec_bit_at(mask, j) {
                    if 0 <= vpos < b.len() {
                        if b[vpos] == pop {
                            lemma_push_vals_big_arity(b, tpos, vpos + 1, j + 1, arity, mask, pop);
                        } else if spec_is_load(b[vpos]) {
                            lemma_push_vals_big_arity(b, tpos, vpos + 3, j + 1, arity, mask, pop);
                        }
                    }
                } else {
                    lemma_push_vals_big_arity(b, tpos, vpos + sz as int, j + 1, arity, mask, pop);
                }
            },
        }
    }
}

/// The position right after a whole push instruction at `pos`: the opcode,
/// the arity byte, the reference bitmask, one type byte per argument, and
/// the value bytes.
pub open spec fn spec_push_end(b: Seq<u8>, pos: int, pop: u8) -> Option<int> {
    if pos + 3 > b.len() {
        None
    } else {
        let arity = b[pos + 1] as int;
        let mask = b[pos + 2];
        spec_push_vals(b, pos + 3, pos + 3 + arity, 0, arity, mask, pop)
    }
}

/// The position right after the `End` that closes the region the scanner
/// is inside of, starting at `pos` with `depth` regions open. `None` on an
/// unknown opcode, a depth underflow, a malformed argument list or a
/// premature end of the buffer.
pub open spec fn spec_scan_from(b: Seq<u8>, pos: int, depth: int) -> Option<int>
    decreases b.len() - pos,
{
    if pos < 0 || pos >= b.len() {
        None
    } else {
        match spec_classify(b[pos]) {
            OpClass::Unknown => None,
            OpClass::End => {
                if depth <= 0 {
                    None
                } else if depth == 1 {
                    Some(pos + 1)
                } else {
                    spec_scan_from(b, pos + 1, depth - 1)
                }
            },
            OpClass::Opener { header } => {
                if pos + header > b.len() {
                    None
                } else {
                    spec_scan_from(b, pos + header, depth + 1)
                }
            },
            OpClass::FixedOperand { extra } => {
                if pos + 1 + extra > b.len() {
                    None
                } else {
                    spec_scan_from(b, pos + 1 + extra, depth)
                }
            },
            OpClass::Push { pop } => {
                match spec_push_end(b, pos, pop) {
                    None => None,
                    Some(e) => {
                        if e <= pos || e > b.len() {
                            None
                        } else {
                            spec_scan_from(b, e, depth)
                        }
                    },
                }
            },
            OpClass::Plain => spec_scan_from(b, pos + 1, depth),
        }
    }
}

/// The length of the control-flow region starting at `idx`: the bytes from
/// the opener to its matching `End` inclusive.
pub open spec fn spec_block_len(b: Seq<u8>, idx: int) -> Option<int> {
    match spec_scan_from(b, idx, 0) {
        Some(e) => Some(e - idx),
        None => None,
    }
}

/// A function of a deployed contract: its arity, code block, name,
/// argument types and return type.
#[derive(Clone, Debug)]
pub struct Function {
    /// The number of arguments that the function receives.
    pub arity: u8,
    /// The block of code associated with the function.
    pub block: Vec<u8>,
    /// The name of the function.
    pub name: String,
    /// The types of the arguments.
    pub arguments: Vec<VmType>,
    /// The return type of the function.
    pub return_type: Option<VmType>,
}

impl Function {
    /// The byte of the code block at `idx`.
    pub fn fetch(&self, idx: usize) -> (r: u8)
        requires
            idx < self.block@.len(),
        ensures
            r == self.block@[idx as int],
    {
        self.block[idx]
    }

    /// Scans the value bytes of a push instruction's argument list; mirrors
    /// `spec_push_vals`.
    fn scan_push_vals(&self, tpos: usize, vpos0: usize, arity: u8, mask: u8, pop: u8) -> (r:
        Option<usize>)
        requires
            arity <= 8,
            self.block@.len() <= usize::MAX - 300,
            tpos <= self.block@.len(),
            vpos0 <= self.block@.len() + 8,
        ensures
            match r {
                Some(e) => spec_push_vals(
                    self.block@,
                    tpos as int,
                    vpos0 as int,
                    0,
                    arity as int,
                    mask,
                    pop,
                ) == Some(e as int),
                None => spec_push_vals(
                    self.block@,
                    tpos as int,
                    vpos0 as int,
                    0,
                    arity as int,
                    mask,
                    pop,
                ) is None,
            },
    {
        let b = &self.block;
        let mut vpos: usize = vpos0;
        let mut j: u8 = 0;
        while j < arity
            invariant
                0 <= j <= arity <= 8,
                vpos <= vpos0 + 8 * j,
                vpos0 <= b@.len() + 8,
                b@.len() <= usize::MAX - 300,
                tpos <= b@.len(),
                b == &self.block,
                spec_push_vals(b@, tpos as int, vpos0 as int, 0, arity as int, mask, pop)
                    == spec_push_vals(b@, tpos as int, vpos as int, j as int, arity as int, mask,
                pop),
            decreases arity - j,
        {
            if tpos + j as usize >= b.len() {
                return None;
            }
            let sz = match VmType::from_op(b[tpos + j as usize]) {
                Some(t) => t.byte_size(),
                None => {
                    return None;
                },
            };
            if (mask >> j) & 1 == 1 {
                if vpos >= b.len() {
                    return None;
                }
                let v = b[vpos];
                if v == pop {
                    vpos = vpos + 1;
                } else if OP_LOAD_FIRST <= v && v <= OP_LOAD_LAST {
                    vpos = vpos + 3;
                } else {
                    return None;
                }
            } else {
                vpos = vpos + sz as usize;
            }
            j = j + 1;
        }
        Some(vpos)
    }

    /// Computes the length in bytes of the control-flow region starting at
    /// `idx`, from the opener to its matching `End` inclusive. Returns
    /// `None` on an unknown opcode, a depth underflow, a malformed
    /// argument list or a premature end of the code block.
    pub fn find_block_len(&self, idx: usize) -> (r: Option<usize>)
        requires
            self.block@.len() <= usize::MAX - 300,
        ensures
            r is Some <==> spec_block_len(self.block@, idx as int) is Some,
            r is Some ==> r->0 as int == spec_block_len(self.block@, idx as int)->0,
    {
        let b = &self.block;
        let len = b.len();
        let mut pos: usize = idx;
        let mut depth: usize = 0;
        loop
            invariant
                idx <= pos,
                depth <= pos,
                b == &self.block,
                len == b@.len(),
                len <= usize::MAX - 300,
                spec_scan_from(b@, idx as int, 0) == spec_scan_from(b@, pos as int, depth as int),
            decreases b@.len() - pos,
        {
            if pos >= len {
                return None;
            }
            let op = b[pos];
            match classify(op) {
                OpClass::Unknown => {
                    return None;
                },
                OpClass::End => {
                    if depth == 0 {
                        return None;
                    } else if depth == 1 {
                        return Some(pos + 1 - idx);
                    } else {
                        depth = depth - 1;
                        pos = pos + 1;
                    }
                },
                OpClass::Opener { header } => {
                    if len - pos < header as usize {
                        return None;
                    }
                    depth = depth + 1;
                    pos = pos + header as usize;
                },
                OpClass::FixedOperand { extra } => {
                    if len - pos < 1 + extra as usize {
                        return None;
                    }
                    pos = pos + 1 + extra as usize;
                },
                OpClass::Push { pop } => {
                    if len - pos < 3 {
                        return None;
                    }
                    let arity = b[pos + 1];
                    let mask = b[pos + 2];
                    if arity > 8 {
                        proof {
                            lemma_push_vals_big_arity(
                                b@,
                                pos + 3,
                                pos + 3 + arity as int,
                                0,
                                arity as int,
                                mask,
                                pop,
                            );
                        }
                        return None;
                    }
                    let e = match self.scan_push_vals(
                        pos + 3,
                        pos + 3 + arity as usize,
                        arity,
                        mask,
                        pop,
                    ) {
                        Some(e) => e,
                        None => {
                            return None;
                        },
                    };
                    if e <= pos || e > len {
                        return None;
                    }
                    pos = e;
                },
                OpClass::Plain => {
                    pos = pos + 1;
                },
            }
        }
    }

    /// The length of the control-flow region starting at `idx`. The byte
    /// there must be a region opener and the region must scan without a
    /// parse failure.
    pub fn fetch_block_len(&self, idx: usize) -> (r: usize)
        requires
            self.block@.len() <= usize::MAX - 300,
            idx < self.block@.len(),
            spec_classify(self.block@[idx as int]) is Opener,
            spec_block_len(self.block@, idx as int) is Some,
        ensures
            Some(r as int) == spec_block_len(self.block@, idx as int),
    {
        match self.find_block_len(idx) {
            Some(len) => len,
            None => {
                proof {
                    assert(false);
                }
                0
            },
        }
    }
}

/// One element of the instruction grammar: either a single non-region
/// instruction together with its in-line operand bytes, or a whole region
/// from an opener header to its matching `End`.
pub enum VmItem {
    Simple { bytes: Seq<u8> },
    Region { opener: Seq<u8>, body: Box<VmItems> },
}

/// A sequence of grammar items.
pub enum VmItems {
    Nil,
    Cons { head: Box<VmItem>, tail: Box<VmItems> },
}

/// A valid encoding of one non-region instruction: the opcode and exactly
/// the operand bytes its class carries.
pub open spec fn simple_wf(bytes: Seq<u8>) -> bool {
    bytes.len() > 0 && match spec_classify(bytes[0]) {
        OpClass::Plain => bytes.len() == 1,
        OpClass::FixedOperand { extra } => bytes.len() == 1 + extra,
        OpClass::Push { pop } => spec_push_end(bytes, 0, pop) == Some(bytes.len() as int),
        _ => false,
    }
}

/// A valid opener header: the opener opcode and its header bytes.
pub open spec fn opener_wf(opener: Seq<u8>) -> bool {
    opener.len() > 0 && match spec_classify(opener[0]) {
        OpClass::Opener { header } => opener.len() == header,
        _ => false,
    }
}

/// A well-formed grammar item.
pub open spec fn item_wf(item: VmItem) -> bool
    decreases item,
{
    match item {
        VmItem::Simple { bytes } => simple_wf(bytes),
        VmItem::Region { opener, body } => opener_wf(opener) && items_wf(*body),
    }
}

/// A well-formed item sequence.
pub open spec fn items_wf(items: VmItems) -> bool
    decreases items,
{
    match items {
        VmItems::Nil => true,
        VmItems::Cons { head, tail } => item_wf(*head) && items_wf(*tail),
    }
}

/// The bytes an item renders to; a region renders to its opener header,
/// its body, and the closing `End`.
pub open spec fn render_item(item: VmItem) -> Seq<u8>
    decreases item,
{
    match item {
        VmItem::Simple { bytes } => bytes,
        VmItem::Region { opener, body } => opener + render_items(*body) + seq![OP_END],
    }
}

/// The concatenation of the rendered items.
pub open spec fn render_items(items: VmItems) -> Seq<u8>
    decreases items,
{
    match items {
        VmItems::Nil => Seq::empty(),
        VmItems::Cons { head, tail } => render_item(*head) + render_items(*tail),
    }
}

/// The scan of a push argument list never moves backwards.
proof fn lemma_push_vals_monotone(
    b: Seq<u8>,
    tpos: int,
    vpos: int,
    j: int,
    arity: int,
    mask: u8,
    pop: u8,
)
    requires
        spec_push_vals(b, tpos, vpos, j, arity, mask, pop) is Some,
    ensures
        vpos <= spec_push_vals(b, tpos, vpos, j, arity, mask, pop)->0,
    decreases arity - j,
{
    if j >= arity {
    } else {
        let sz = spec_vmtype_size(b[tpos + j])->0;
        if spec_bit_at(mask, j) {
            if b[vpos] == pop {
                lemma_push_vals_monotone(b, tpos, vpos + 1, j + 1, arity, mask, pop);
            } else {
                lemma_push_vals_monotone(b, tpos, vpos + 3, j + 1, arity, mask, pop);
            }
        } else {
            lemma_push_vals_monotone(b, tpos, vpos + sz as int, j + 1, arity, mask, pop);
        }
    }
}

/// Scanning a push argument list reads only the window it succeeds in, so
/// the same list embedded at `pos` of a larger buffer scans to the shifted
/// position.
proof fn lemma_push_vals_shift(
    bytes: Seq<u8>,
    b: Seq<u8>,
    pos: int,
    tpos: int,
    vpos: int,
    j: int,
    arity: int,
    mask: u8,
    pop: u8,
)
    requires
        0 <= pos,
        pos + bytes.len() <= b.len(),
        b.subrange(pos, pos + bytes.len()) == bytes,
        0 <= tpos,
        0 <= vpos,
        spec_push_vals(bytes, tpos, vpos, j, arity, mask, pop) is Some,
        spec_push_vals(bytes, tpos, vpos, j, arity, mask, pop)->0 <= bytes.len(),
    ensures
        spec_push_vals(b, pos + tpos, pos + vpos, j, arity, mask, pop) == Some(
            pos + spec_push_vals(bytes, tpos, vpos, j, arity, mask, pop)->0,
        ),
    decreases arity - j,
{
    if j >= arity {
    } else {
        assert(b[pos + tpos + j] == bytes[tpos + j]) by {
            assert(b.subrange(pos, pos + bytes.len())[tpos + j] == bytes[tpos + j]);
        }
        let sz = spec_vmtype_size(bytes[tpos + j])->0;
        if spec_bit_at(mask, j) {
            lemma_push_vals_monotone(bytes, tpos, vpos, j, arity, mask, pop);
            assert(b[pos + vpos] == bytes[vpos]) by {
                assert(b.subrange(pos, pos + bytes.len())[vpos] == bytes[vpos]);
            }
            if bytes[vpos] == pop {
                lemma_push_vals_monotone(bytes, tpos, vpos + 1, j + 1, arity, mask, pop);
                lemma_push_vals_shift(bytes, b, pos, tpos, vpos + 1, j + 1, arity, mask, pop);
            } else {
                lemma_push_vals_monotone(bytes, tpos, vpos + 3, j + 1, arity, mask, pop);
                lemma_push_vals_shift(bytes, b, pos, tpos, vpos + 3, j + 1, arity, mask, pop);
            }
        } else {
            lemma_push_vals_monotone(bytes, tpos, vpos + sz as int, j + 1, arity, mask, pop);
            lemma_push_vals_shift(bytes, b, pos, tpos, vpos + sz as int, j + 1, arity, mask, pop);
        }
    }
}

/// Scanning passes over one embedded item: a simple instruction or a
/// nested region leaves the depth unchanged and moves to the bytes after
/// it; a region at depth zero closes the scan right after its `End`.
proof fn lemma_scan_item(b: Seq<u8>, pos: int, depth: int, item: VmItem)
    requires
        item_wf(item),
        0 <= pos,
        0 <= depth,
        pos + render_item(item).len() <= b.len(),
        b.subrange(pos, pos + render_item(item).len() as int) == render_item(item),
    ensures
        (item is Region && depth == 0) ==> spec_scan_from(b, pos, 0) == Some(
            pos + render_item(item).len(),
        ),
        (item is Simple || depth >= 1) ==> spec_scan_from(b, pos, depth) == spec_scan_from(
            b,
            pos + render_item(item).len(),
            depth,
        ),
    decreases item,
{
    let r = render_item(item);
    assert(b[pos] == r[0]) by {
        assert(b.subrange(pos, pos + r.len() as int)[0] == r[0]);
    }
    match item {
        VmItem::Simple { bytes } => {
            match spec_classify(bytes[0]) {
                OpClass::Plain => {},
                OpClass::FixedOperand { extra } => {},
                OpClass::Push { pop } => {
                    assert(bytes.len() >= 3) by {
                        if bytes.len() < 3 {
                        }
                    }
                    assert(b[pos + 1] == bytes[1] && b[pos + 2] == bytes[2]) by {
                        assert(b.subrange(pos, pos + r.len() as int)[1] == bytes[1]);
                        assert(b.subrange(pos, pos + r.len() as int)[2] == bytes[2]);
                    }
                    let arity = bytes[1] as int;
                    lemma_push_vals_monotone(bytes, 3, 3 + arity, 0, arity, bytes[2], pop);
                    lemma_push_vals_shift(
                        bytes,
                        b,
                        pos,
                        3,
                        3 + arity,
                        0,
                        arity,
                        bytes[2],
                        pop,
                    );
                    assert(spec_push_end(b, pos, pop) == Some(pos + bytes.len()));
                },
                _ => {},
            }
        },
        VmItem::Region { opener, body } => {
            let header = opener.len() as int;
            assert(forall|k: int| 0 <= k < r.len() ==> b[pos + k] == r[k]) by {
                assert(forall|k: int|
                    0 <= k < r.len() ==> b.subrange(pos, pos + r.len() as int)[k] == r[k]);
            }
            assert(forall|k: int| 0 <= k < header ==> r[k] == opener[k]);
            let body_len = render_items(*body).len() as int;
            assert(b.subrange(pos + header, pos + header + body_len) =~= render_items(*body))
                by {
                assert(forall|k: int|
                    0 <= k < body_len ==> r[header + k] == render_items(*body)[k]);
            }
            lemma_scan_items(b, pos + header, depth + 1, *body);
            assert(b[pos + header + body_len] == OP_END) by {
                assert(r[header + body_len] == OP_END);
            }
        },
    }
}

/// Scanning passes over an embedded item sequence at a positive depth.
proof fn lemma_scan_items(b: Seq<u8>, pos: int, depth: int, items: VmItems)
    requires
        items_wf(items),
        0 <= pos,
        1 <= depth,
        pos + render_items(items).len() <= b.len(),
        b.subrange(pos, pos + render_items(items).len() as int) == render_items(items),
    ensures
        spec_scan_from(b, pos, depth) == spec_scan_from(
            b,
            pos + render_items(items).len(),
            depth,
        ),
    decreases items,
{
    match items {
        VmItems::Nil => {},
        VmItems::Cons { head, tail } => {
            let r = render_items(items);
            let hl = render_item(*head).len() as int;
            let tl = render_items(*tail).len() as int;
            assert(forall|k: int| 0 <= k < r.len() ==> b[pos + k] == r[k]) by {
                assert(forall|k: int|
                    0 <= k < r.len() ==> b.subrange(pos, pos + r.len() as int)[k] == r[k]);
            }
            assert(b.subrange(pos, pos + hl) =~= render_item(*head)) by {
                assert(forall|k: int| 0 <= k < hl ==> r[k] == render_item(*head)[k]);
            }
            assert(b.subrange(pos + hl, pos + hl + tl) =~= render_items(*tail)) by {
                assert(forall|k: int| 0 <= k < tl ==> r[hl + k] == render_items(*tail)[k]);
            }
            lemma_scan_item(b, pos, depth, *head);
            lemma_scan_items(b, pos + hl, depth, *tail);
        },
    }
}

/// Scanner bracketing: for any byte string produced by rendering a
/// well-formed region (an opener header, valid instruction encodings with
/// matched openers and `End`s, and the closing `End`), the scanner started
/// at the opener returns exactly the region's length.
pub proof fn lemma_scanner_bracketing(b: Seq<u8>, pos: int, item: VmItem)
    requires
        item_wf(item),
        item is Region,
        0 <= pos,
        pos + render_item(item).len() <= b.len(),
        b.subrange(pos, pos + render_item(item).len() as int) == render_item(item),
    ensures
        spec_block_len(b, pos) == Some(render_item(item).len() as int),
{
    lemma_scan_item(b, pos, 0, item);
}

} // verus!

use crate::elfloader::{le_u16, le_u64, read_u16, read_u64};
use crate::text::{decimal, hex, hex_of, pad_left, push_decimal, push_hex, push_padded};
use vstd::prelude::*;
use vstd::string::StringExecFns;

verus! {

/// What the inspector says of the system that an executable is for.
pub open spec fn osabi_line(osabi: u8) -> Seq<char> {
    if osabi == 0 {
        "OSABI: System V (often Linux)\n"@
    } else if osabi == 3 {
        "OSABI: Linux\n"@
    } else {
        "OSABI: other 0x"@ + pad_left(hex(osabi as nat), 2, '0') + "\n"@
    }
}

/// What the inspector says of a file: why it is no 64-bit executable, or
/// the system it is for, its type and machine, its entry address, and the
/// number, size and offset of its program headers.
pub open spec fn inspection(b: Seq<u8>) -> Seq<char> {
    if b.len() < 64 {
        "Not ELF64: too small\n"@
    } else if !(b[0] == 0x7f && b[1] == 0x45 && b[2] == 0x4c && b[3] == 0x46) {
        "Not ELF magic\n"@
    } else if b[4] != 2 {
        "Not 64-bit ELF\n"@
    } else {
        "ELF64 detected\n"@ + osabi_line(b[7]) + "Type: 0x"@ + hex(le_u16(b, 16) as nat) + ", Machine: 0x"@ + hex(
            le_u16(b, 18) as nat,
        ) + "\n"@ + "Entry: 0x"@ + pad_left(hex(le_u64(b, 24) as nat), 16, '0') + "\n"@ + "PH num: "@ + decimal(
            le_u16(b, 56) as nat,
        ) + " size: "@ + decimal(le_u16(b, 54) as nat) + " off: "@ + decimal(le_u64(b, 32) as nat) + "\n"@
    }
}

/// Describes the header of a 64-bit executable in a few lines of text.
pub fn inspect_elf64(bytes: &[u8]) -> (out: String)
    ensures
        out@ == inspection(bytes@),
{
    if bytes.len() < 64 {
        return String::from_str("Not ELF64: too small\n");
    }
    if bytes[0] != 0x7f || bytes[1] != 0x45 || bytes[2] != 0x4c || bytes[3] != 0x46 {
        return String::from_str("Not ELF magic\n");
    }
    let class = bytes[4];
    let osabi = bytes[7];
    if class != 2 {
        return String::from_str("Not 64-bit ELF\n");
    }
    let mut out = String::from_str("ELF64 detected\n");
    let ghost head = out@;
    if osabi == 0 {
        out.append("OSABI: System V (often Linux)\n");
    } else if osabi == 3 {
        out.append("OSABI: Linux\n");
    } else {
        out.append("OSABI: other 0x");
        push_padded(&mut out, &hex_of(osabi as u64), 2, '0');
        out.append("\n");
    }
    proof {
        assert(out@ =~= head + osabi_line(osabi));
    }
    let e_type = read_u16(bytes, 16);
    let e_machine = read_u16(bytes, 18);
    let e_entry = read_u64(bytes, 24);
    let phoff = read_u64(bytes, 32);
    let phentsize = read_u16(bytes, 54);
    let phnum = read_u16(bytes, 56);
    out.append("Type: 0x");
    push_hex(&mut out, e_type as u64);
    out.append(", Machine: 0x");
    push_hex(&mut out, e_machine as u64);
    out.append("\n");
    out.append("Entry: 0x");
    push_padded(&mut out, &hex_of(e_entry), 16, '0');
    out.append("\n");
    out.append("PH num: ");
    push_decimal(&mut out, phnum as u64);
    out.append(" size: ");
    push_decimal(&mut out, phentsize as u64);
    out.append(" off: ");
    push_decimal(&mut out, phoff);
    out.append("\n");
    out
}

/// A byte as two hexadecimal digits, letters in lower case.
pub fn hex2(v: u8) -> (text: String)
    ensures
        text@ == pad_left(hex(v as nat), 2, '0'),
{
    let mut s = String::new();
    push_padded(&mut s, &hex_of(v as u64), 2, '0');
    proof {
        assert(Seq::<char>::empty() + pad_left(hex(v as nat), 2, '0') =~= pad_left(hex(v as nat), 2, '0'));
    }
    s
}

/// The table of all bytes as two hexadecimal digits each, in rising order.
pub fn gen_hex() -> (table: Vec<String>)
    ensures
        table@.len() == 256,
        forall|i: int| 0 <= i < 256 ==> (#[trigger] table@[i])@ == pad_left(hex(i as nat), 2, '0'),
{
    let mut table: Vec<String> = Vec::new();
    let mut i: usize = 0;
    while i < 256
        invariant
            i <= 256,
            table@.len() == i,
            forall|j: int| 0 <= j < i ==> (#[trigger] table@[j])@ == pad_left(hex(j as nat), 2, '0'),
        decreases 256 - i,
    {
        table.push(hex2(i as u8));
        i += 1;
    }
    table
}

/// The table of all bytes as two hexadecimal digits each, in rising order.
pub fn hex_table() -> (table: Vec<String>)
    ensures
        table@.len() == 256,
        forall|i: int| 0 <= i < 256 ==> (#[trigger] table@[i])@ == pad_left(hex(i as nat), 2, '0'),
{
    gen_hex()
}

} // verus!

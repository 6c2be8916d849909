//! Laws of mapped images: what their headers say, and which imports and exports their
//! tables list.
use vstd::prelude::*;
use vstd::utf8::{decode_utf8, valid_utf8};

use crate::arch::Arch;
use crate::bytes::{u16_at, u32_at, u64_at};
use crate::eat::{export_slot, find_named, EatHookError, ExportSlot};
use crate::iat::{find_import, find_slot, import_slot, InternalIatHookError};
use crate::introspect::{
    entry_address, export_at, export_directory, exports_of, exports_upto, imports_from,
    imports_from_table, last_name, ExportDirectory, ImportView,
};
use crate::laws::inline::limit;
use crate::laws::memory::lemma_u16_value;
use crate::pe::{
    c_string, directory, entry_point, find_zero, image_holds, image_u16, image_u32, image_word,
    in_image, parsed, ModuleImage, PeError,
};
use crate::text::ascii_lower_text;

verus! {

/// The size of a pointer.
pub open spec fn word(arch: Arch) -> int {
    if arch == Arch::X86 {
        4
    } else {
        8
    }
}

/// Whether the headers of an image are complete and in order: the two signatures, the
/// magic number of the architecture, and a size. The NT headers stand where the 32 bits
/// at 0x3C say.
pub open spec fn headers_in_order(arch: Arch, mapped: Seq<u8>) -> bool {
    let nt = u32_at(mapped, 0x3C);
    &&& mapped.len() >= 64
    &&& mapped[0] == 0x4D && mapped[1] == 0x5A
    &&& 0 < nt < 0x8000_0000
    &&& nt + (if arch == Arch::X86 {
        248int
    } else {
        264
    }) <= mapped.len()
    &&& u32_at(mapped, nt as int) == 0x4550
    &&& u16_at(mapped, nt + 24) == (if arch == Arch::X86 {
        0x10Bu16
    } else {
        0x20B
    })
    &&& u32_at(mapped, nt + 80) != 0
}

/// An image is accepted exactly where its headers are in order, and its size is the one
/// that they give.
pub proof fn lemma_headers_decide(arch: Arch, mapped: Seq<u8>, base: u64)
    ensures
        parsed(arch, mapped, base) is Ok <==> base != 0 && headers_in_order(arch, mapped) && base
            + u32_at(mapped, 0x3C) < limit(arch),
        parsed(arch, mapped, base) matches Ok(image) ==> image.base_address == base && image.size
            == u32_at(mapped, u32_at(mapped, 0x3C) + 80),
{
    lemma_u16_value(mapped, 0);
}

/// The entry point of a module is the one that its headers give, counted from its base.
pub proof fn lemma_entry_point_is_that_of_the_headers(arch: Arch, mapped: Seq<u8>, base: u64)
    requires
        base != 0,
        headers_in_order(arch, mapped),
        base + u32_at(mapped, 0x3C) < limit(arch),
    ensures
        ({
            let rva = u32_at(mapped, u32_at(mapped, 0x3C) + 40);
            &&& entry_point(arch, mapped) == if rva == 0 {
                None
            } else {
                Some(rva as u64)
            }
            &&& entry_address(arch, mapped, base) == if rva == 0 {
                None
            } else {
                Some(((base + rva) % limit(arch)) as u64)
            }
        }),
{
    lemma_headers_decide(arch, mapped, base);
}

/// A data directory is the pair of 32-bit numbers in its place behind the optional
/// header's fixed fields; one that is empty, not counted, or not within the image does
/// not exist.
pub proof fn lemma_directory_stands_in_the_headers(
    arch: Arch,
    image: ModuleImage,
    mapped: Seq<u8>,
    index: int,
)
    requires
        headers_in_order(arch, mapped),
        0 <= index,
    ensures
        ({
            let fields: int = if arch == Arch::X86 {
                120
            } else {
                136
            };
            let nt = u32_at(mapped, 0x3C);
            let rva = u32_at(mapped, nt + fields + 8 * index);
            let size = u32_at(mapped, nt + fields + 8 * index + 4);
            directory(arch, image, mapped, index) == if index < 16 && index < u32_at(
                mapped,
                nt + fields - 4,
            ) && rva != 0 && size != 0 && rva + size <= image.size {
                Some((rva as u64, size as u64))
            } else {
                None
            }
        }),
{
}

/// Values are read at their relative address, where all their bytes lie within the image
/// and were captured.
pub proof fn lemma_image_values(arch: Arch, image: ModuleImage, mapped: Seq<u8>, rva: int)
    requires
        image.base_address + image.size < limit(arch),
    ensures
        image_u16(arch, image, mapped, rva) == if 0 < rva && rva + 2 <= image.size && rva + 2
            <= mapped.len() {
            Some(u16_at(mapped, rva))
        } else {
            None
        },
        image_u32(arch, image, mapped, rva) == if 0 < rva && rva + 4 <= image.size && rva + 4
            <= mapped.len() {
            Some(u32_at(mapped, rva))
        } else {
            None
        },
        image_word(arch, image, mapped, rva) == if 0 < rva && rva + word(arch) <= image.size && rva
            + word(arch) <= mapped.len() {
            Some(
                if arch == Arch::X86 {
                    u32_at(mapped, rva) as u64
                } else {
                    u64_at(mapped, rva)
                },
            )
        } else {
            None
        },
        forall|size: int|
            size > 0 ==> #[trigger] image_holds(arch, image, mapped, rva, size) == (0 < rva && rva
                + size <= image.size && rva + size <= mapped.len()),
        forall|size: int|
            size > 0 ==> #[trigger] in_image(arch, image, rva, size) == (0 < rva && rva + size
                <= image.size),
{
}

/// The first zero byte is found.
proof fn lemma_find_zero(bytes: Seq<u8>, at: int, end: int, zero: int)
    requires
        0 <= at <= zero < end,
        zero < bytes.len(),
        bytes[zero] == 0,
        forall|i: int| at <= i < zero ==> bytes[i] != 0,
    ensures
        find_zero(bytes, at, end) == Some(zero),
    decreases zero - at,
{
    if at < zero {
        lemma_find_zero(bytes, at + 1, end, zero);
    }
}

/// Where nothing is zero, no zero byte is found.
proof fn lemma_find_no_zero(bytes: Seq<u8>, at: int, end: int)
    requires
        0 <= at,
        forall|i: int| at <= i < end && i < bytes.len() ==> bytes[i] != 0,
    ensures
        find_zero(bytes, at, end) is None,
    decreases end - at,
{
    if at < end && at < bytes.len() {
        lemma_find_no_zero(bytes, at + 1, end);
    }
}

/// A text is the bytes from its address up to the first zero byte, which lies within the
/// image, read as UTF-8; where there is no zero byte or the bytes are not UTF-8, there is
/// no text.
pub proof fn lemma_text_ends_at_its_zero(
    arch: Arch,
    image: ModuleImage,
    mapped: Seq<u8>,
    rva: int,
    zero: int,
)
    requires
        image.base_address + image.size < limit(arch),
        0 < rva,
    ensures
        rva <= zero < image.size && zero < mapped.len() && mapped[zero] == 0 && (forall|i: int|
            rva <= i < zero ==> mapped[i] != 0) ==> c_string(arch, image, mapped, rva)
            == if valid_utf8(mapped.subrange(rva, zero)) {
            Some(decode_utf8(mapped.subrange(rva, zero)))
        } else {
            None
        },
        (forall|i: int| rva <= i < image.size && i < mapped.len() ==> mapped[i] != 0) ==> c_string(
            arch,
            image,
            mapped,
            rva,
        ) is None,
{
    if rva <= zero < image.size && zero < mapped.len() && mapped[zero] == 0 && (forall|i: int|
        rva <= i < zero ==> mapped[i] != 0) {
        lemma_find_zero(mapped, rva, image.size as int, zero);
    }
    if forall|i: int| rva <= i < image.size && i < mapped.len() ==> mapped[i] != 0 {
        lemma_find_no_zero(mapped, rva, image.size as int);
    }
}

/// Entry `j` of a lookup table, where no entry up to it is missing or zero.
pub open spec fn listed(
    arch: Arch,
    image: ModuleImage,
    mapped: Seq<u8>,
    table: int,
    j: int,
) -> bool {
    forall|i: int|
        0 <= i <= j ==> (#[trigger] image_word(arch, image, mapped, table + i * word(arch))
            matches Some(entry) && entry != 0)
}

/// The import that entry `j` of a lookup table describes: by name where the top bit is
/// clear, otherwise by ordinal; its address is what the slot with the same number holds.
pub open spec fn import_of_entry(
    arch: Arch,
    image: ModuleImage,
    mapped: Seq<u8>,
    dll: Seq<char>,
    table: int,
    slots: int,
    j: int,
) -> ImportView {
    let entry = image_word(arch, image, mapped, table + j * word(arch))->0;
    let top: u64 = if arch == Arch::X86 {
        0x8000_0000
    } else {
        0x8000_0000_0000_0000
    };
    ImportView {
        dll,
        name: if entry & top == 0 {
            c_string(arch, image, mapped, entry + 2)
        } else {
            None
        },
        ordinal: if entry & top == 0 {
            None
        } else {
            Some((entry & 0xFFFF) as u16)
        },
        address: match image_word(arch, image, mapped, slots + j * word(arch)) {
            Some(address) => address,
            None => 0,
        },
    }
}

/// The imports of one module are the entries of its lookup table up to the first that is
/// zero or missing, each once and in their order.
pub proof fn lemma_table_lists_its_entries(
    arch: Arch,
    image: ModuleImage,
    mapped: Seq<u8>,
    dll: Seq<char>,
    table: int,
    slots: int,
    j: int,
)
    requires
        0 <= j,
    ensures
        ({
            let list = imports_from_table(arch, image, mapped, dll, table, slots);
            &&& j < list.len() <==> listed(arch, image, mapped, table, j)
            &&& j < list.len() ==> list[j] == import_of_entry(
                arch,
                image,
                mapped,
                dll,
                table,
                slots,
                j,
            )
        }),
    decreases j,
{
    let step = word(arch);
    let list = imports_from_table(arch, image, mapped, dll, table, slots);
    let rest = imports_from_table(arch, image, mapped, dll, table + step, slots + step);
    assert(table + 0 * step == table && slots + 0 * step == slots);
    let starts = image_word(arch, image, mapped, table) matches Some(entry) && entry != 0;
    if !starts {
        assert(list.len() == 0);
        assert(!listed(arch, image, mapped, table, j)) by {
            assert(!(image_word(arch, image, mapped, table + 0 * step) matches Some(entry) && entry
                != 0));
        }
    } else {
        assert(list.len() == 1 + rest.len());
        assert(list[0] == import_of_entry(arch, image, mapped, dll, table, slots, 0));
        if j == 0 {
            assert forall|i: int| 0 <= i <= 0 implies (#[trigger] image_word(
                arch,
                image,
                mapped,
                table + i * step,
            ) matches Some(entry) && entry != 0) by {
                assert(i == 0);
            }
        } else {
            lemma_table_lists_its_entries(
                arch,
                image,
                mapped,
                dll,
                table + step,
                slots + step,
                j - 1,
            );
            assert(list.subrange(1, list.len() as int) =~= rest);
            assert(j < list.len() ==> list[j] == rest[j - 1]);
            assert((table + step) + (j - 1) * step == table + j * step) by (nonlinear_arith);
            assert((slots + step) + (j - 1) * step == slots + j * step) by (nonlinear_arith);
            if listed(arch, image, mapped, table, j) {
                assert forall|i: int| 0 <= i <= j - 1 implies (#[trigger] image_word(
                    arch,
                    image,
                    mapped,
                    (table + step) + i * step,
                ) matches Some(entry) && entry != 0) by {
                    assert((table + step) + i * step == table + (i + 1) * step)
                        by (nonlinear_arith);
                    assert(image_word(arch, image, mapped, table + (i + 1) * step) matches Some(
                        entry,
                    ) && entry != 0);
                }
            }
            if listed(arch, image, mapped, table + step, j - 1) {
                assert forall|i: int| 0 <= i <= j implies (#[trigger] image_word(
                    arch,
                    image,
                    mapped,
                    table + i * step,
                ) matches Some(entry) && entry != 0) by {
                    if i > 0 {
                        assert((table + step) + (i - 1) * step == table + i * step)
                            by (nonlinear_arith);
                        assert(image_word(arch, image, mapped, (table + step) + (i - 1) * step)
                            matches Some(entry) && entry != 0);
                    } else {
                        assert(i == 0);
                    }
                }
            }
        }
    }
}

/// Whether an import descriptor is complete and names a module.
pub open spec fn describes(arch: Arch, image: ModuleImage, mapped: Seq<u8>, at: int) -> bool {
    &&& image_holds(arch, image, mapped, at, 20)
    &&& u32_at(mapped, at + 12) != 0
    &&& c_string(arch, image, mapped, u32_at(mapped, at + 12) as int) is Some
}

/// The imports that one descriptor stands for: those of its lookup table, or of its slots
/// where it has no lookup table.
pub open spec fn imports_of_descriptor(
    arch: Arch,
    image: ModuleImage,
    mapped: Seq<u8>,
    at: int,
) -> Seq<ImportView> {
    let table = if u32_at(mapped, at) != 0 {
        u32_at(mapped, at)
    } else {
        u32_at(mapped, at + 16)
    };
    if table == 0 {
        Seq::empty()
    } else {
        imports_from_table(
            arch,
            image,
            mapped,
            c_string(arch, image, mapped, u32_at(mapped, at + 12) as int)->0,
            table as int,
            u32_at(mapped, at + 16) as int,
        )
    }
}

/// How many imports the first `count` descriptors stand for.
pub open spec fn import_count(
    arch: Arch,
    image: ModuleImage,
    mapped: Seq<u8>,
    start: int,
    count: int,
) -> int
    decreases count,
{
    if count <= 0 {
        0
    } else {
        import_count(arch, image, mapped, start, count - 1) + imports_of_descriptor(
            arch,
            image,
            mapped,
            start + 20 * (count - 1),
        ).len()
    }
}

/// Counting from the second descriptor on leaves out what the first one stands for.
proof fn lemma_import_count_shift(
    arch: Arch,
    image: ModuleImage,
    mapped: Seq<u8>,
    start: int,
    count: int,
)
    requires
        count >= 1,
    ensures
        import_count(arch, image, mapped, start, count) == imports_of_descriptor(
            arch,
            image,
            mapped,
            start,
        ).len() + import_count(arch, image, mapped, start + 20, count - 1),
    decreases count,
{
    if count > 1 {
        lemma_import_count_shift(arch, image, mapped, start, count - 1);
    } else {
        assert(import_count(arch, image, mapped, start, 0) == 0);
    }
}

/// No descriptor is left out: import `j` of descriptor `k` is in the list, behind those
/// of the descriptors before it. All descriptors up to it have to be complete.
pub proof fn lemma_every_import_is_listed(
    arch: Arch,
    image: ModuleImage,
    mapped: Seq<u8>,
    start: int,
    k: int,
    j: int,
)
    requires
        0 <= k,
        forall|i: int| 0 <= i <= k ==> #[trigger] describes(arch, image, mapped, start + 20 * i),
        0 <= j < imports_of_descriptor(arch, image, mapped, start + 20 * k).len(),
    ensures
        ({
            let place = import_count(arch, image, mapped, start, k) + j;
            let list = imports_from(arch, image, mapped, start);
            0 <= place < list.len() && list[place] == imports_of_descriptor(
                arch,
                image,
                mapped,
                start + 20 * k,
            )[j]
        }),
    decreases k,
{
    let here = imports_of_descriptor(arch, image, mapped, start);
    let rest = imports_from(arch, image, mapped, start + 20);
    assert(describes(arch, image, mapped, start + 20 * 0));
    assert(imports_from(arch, image, mapped, start) =~= here + rest);
    if k > 0 {
        assert forall|i: int| 0 <= i <= k - 1 implies #[trigger] describes(
            arch,
            image,
            mapped,
            (start + 20) + 20 * i,
        ) by {
            assert(describes(arch, image, mapped, start + 20 * (i + 1)));
        }
        assert((start + 20) + 20 * (k - 1) == start + 20 * k);
        lemma_every_import_is_listed(arch, image, mapped, start + 20, k - 1, j);
        lemma_import_count_shift(arch, image, mapped, start, k);
    } else {
        assert(import_count(arch, image, mapped, start, 0) == 0);
    }
}

/// Nothing else is listed: where the first `count` descriptors are complete and the next
/// one is not, the list is as long as their tables together.
pub proof fn lemma_imports_end_with_the_descriptors(
    arch: Arch,
    image: ModuleImage,
    mapped: Seq<u8>,
    start: int,
    count: int,
)
    requires
        0 <= count,
        forall|i: int| 0 <= i < count ==> #[trigger] describes(arch, image, mapped, start + 20 * i),
        !describes(arch, image, mapped, start + 20 * count),
    ensures
        imports_from(arch, image, mapped, start).len() == import_count(
            arch,
            image,
            mapped,
            start,
            count,
        ),
    decreases count,
{
    if count > 0 {
        let here = imports_of_descriptor(arch, image, mapped, start);
        let rest = imports_from(arch, image, mapped, start + 20);
        assert(describes(arch, image, mapped, start + 20 * 0));
        assert(imports_from(arch, image, mapped, start) =~= here + rest);
        assert forall|i: int| 0 <= i < count - 1 implies #[trigger] describes(
            arch,
            image,
            mapped,
            (start + 20) + 20 * i,
        ) by {
            assert(describes(arch, image, mapped, start + 20 * (i + 1)));
        }
        assert((start + 20) + 20 * (count - 1) == start + 20 * count);
        lemma_imports_end_with_the_descriptors(arch, image, mapped, start + 20, count - 1);
        lemma_import_count_shift(arch, image, mapped, start, count);
    }
}

/// The imports of an image are those from its import directory's first descriptor on.
pub proof fn lemma_imports_begin_at_the_directory(arch: Arch, image: ModuleImage, mapped: Seq<u8>)
    ensures
        crate::introspect::imports_of(arch, image, mapped) == match directory(
            arch,
            image,
            mapped,
            1,
        ) {
            Some((rva, _)) => imports_from(arch, image, mapped, rva as int),
            None => Seq::empty(),
        },
{
}

/// Whether the search for an import goes past entry `i` of a table: its slot lies within
/// the image, and the entry is there, is not zero, and is by ordinal or has another name.
pub open spec fn passes(
    arch: Arch,
    image: ModuleImage,
    mapped: Seq<u8>,
    slots: int,
    table: int,
    function: Seq<char>,
    i: int,
) -> bool {
    let top: u64 = if arch == Arch::X86 {
        0x8000_0000
    } else {
        0x8000_0000_0000_0000
    };
    &&& in_image(arch, image, slots + i * word(arch), word(arch))
    &&& image_word(arch, image, mapped, table + i * word(arch)) matches Some(entry) && {
        &&& entry != 0
        &&& entry & top == 0 ==> (c_string(arch, image, mapped, entry + 2) matches Some(name)
            && name != function)
    }
}

/// Whether entry `i` of a table imports `function` by name, with its slot within the
/// image.
pub open spec fn carries(
    arch: Arch,
    image: ModuleImage,
    mapped: Seq<u8>,
    slots: int,
    table: int,
    function: Seq<char>,
    i: int,
) -> bool {
    let top: u64 = if arch == Arch::X86 {
        0x8000_0000
    } else {
        0x8000_0000_0000_0000
    };
    &&& in_image(arch, image, slots + i * word(arch), word(arch))
    &&& image_word(arch, image, mapped, table + i * word(arch)) matches Some(entry) && {
        &&& entry != 0
        &&& entry & top == 0
        &&& c_string(arch, image, mapped, entry + 2) == Some(function)
    }
}

/// The slot of an import is the one with the number of its lookup entry: where the search
/// goes past the first `k` entries, entry `k` decides. If it carries the name, slot `k` is
/// the result; if it is zero, the import is not there; otherwise the table is malformed.
pub proof fn lemma_import_slot_has_the_number_of_its_entry(
    arch: Arch,
    image: ModuleImage,
    mapped: Seq<u8>,
    slots: int,
    table: int,
    function: Seq<char>,
    k: int,
)
    requires
        0 <= k,
        forall|i: int|
            0 <= i < k ==> #[trigger] passes(arch, image, mapped, slots, table, function, i),
        !passes(arch, image, mapped, slots, table, function, k),
    ensures
        find_slot(arch, image, mapped, slots, table, function) == if carries(
            arch,
            image,
            mapped,
            slots,
            table,
            function,
            k,
        ) {
            Ok::<u64, InternalIatHookError>(
                (image.base_address + slots + k * word(arch)) as u64,
            )
        } else if in_image(arch, image, slots + k * word(arch), word(arch)) && image_word(
            arch,
            image,
            mapped,
            table + k * word(arch),
        ) == Some(0u64) {
            Err(InternalIatHookError::TargetNotFound)
        } else {
            Err(InternalIatHookError::MalformedImportDirectory)
        },
    decreases k,
{
    let step = word(arch);
    assert(slots + 0 * step == slots && table + 0 * step == table);
    if k > 0 {
        assert(passes(arch, image, mapped, slots, table, function, 0));
        assert forall|i: int| 0 <= i < k - 1 implies #[trigger] passes(
            arch,
            image,
            mapped,
            slots + step,
            table + step,
            function,
            i,
        ) by {
            assert((table + step) + i * step == table + (i + 1) * step) by (nonlinear_arith);
            assert((slots + step) + i * step == slots + (i + 1) * step) by (nonlinear_arith);
            assert(passes(arch, image, mapped, slots, table, function, i + 1));
        }
        assert((table + step) + (k - 1) * step == table + k * step) by (nonlinear_arith);
        assert((slots + step) + (k - 1) * step == slots + k * step) by (nonlinear_arith);
        lemma_import_slot_has_the_number_of_its_entry(
            arch,
            image,
            mapped,
            slots + step,
            table + step,
            function,
            k - 1,
        );
    }
}

/// Every slot that is found for an import belongs to the first entry with its name.
pub proof fn lemma_found_slot_belongs_to_its_name(
    arch: Arch,
    image: ModuleImage,
    mapped: Seq<u8>,
    slots: int,
    table: int,
    function: Seq<char>,
)
    ensures
        find_slot(arch, image, mapped, slots, table, function) matches Ok(slot) ==> exists|k: int|
            {
                &&& 0 <= k
                &&& #[trigger] carries(arch, image, mapped, slots, table, function, k)
                &&& slot == image.base_address + slots + k * word(arch)
                &&& forall|i: int|
                    0 <= i < k ==> #[trigger] passes(
                        arch,
                        image,
                        mapped,
                        slots,
                        table,
                        function,
                        i,
                    )
            },
    decreases image.size - slots,
{
    let step = word(arch);
    assert(slots + 0 * step == slots && table + 0 * step == table);
    if find_slot(arch, image, mapped, slots, table, function) is Ok {
        if carries(arch, image, mapped, slots, table, function, 0) {
            assert(find_slot(arch, image, mapped, slots, table, function)->Ok_0
                == image.base_address + slots + 0 * step);
        } else {
            assert(passes(arch, image, mapped, slots, table, function, 0));
            lemma_found_slot_belongs_to_its_name(
                arch,
                image,
                mapped,
                slots + step,
                table + step,
                function,
            );
            let slot = find_slot(arch, image, mapped, slots, table, function)->Ok_0;
            let k = choose|k: int|
                {
                    &&& 0 <= k
                    &&& #[trigger] carries(
                        arch,
                        image,
                        mapped,
                        slots + step,
                        table + step,
                        function,
                        k,
                    )
                    &&& slot == image.base_address + (slots + step) + k * step
                    &&& forall|i: int|
                        0 <= i < k ==> #[trigger] passes(
                            arch,
                            image,
                            mapped,
                            slots + step,
                            table + step,
                            function,
                            i,
                        )
                };
            assert((table + step) + k * step == table + (k + 1) * step) by (nonlinear_arith);
            assert((slots + step) + k * step == slots + (k + 1) * step) by (nonlinear_arith);
            assert(carries(arch, image, mapped, slots, table, function, k + 1));
            assert forall|i: int| 0 <= i < k + 1 implies #[trigger] passes(
                arch,
                image,
                mapped,
                slots,
                table,
                function,
                i,
            ) by {
                if i > 0 {
                    assert((table + step) + (i - 1) * step == table + i * step)
                        by (nonlinear_arith);
                    assert((slots + step) + (i - 1) * step == slots + i * step)
                        by (nonlinear_arith);
                    assert(passes(
                        arch,
                        image,
                        mapped,
                        slots + step,
                        table + step,
                        function,
                        i - 1,
                    ));
                }
            }
        }
    }
}

/// Whether the import descriptor at `at` lies within the directory, which ends at `end`,
/// and names a module.
pub open spec fn descriptor_within(
    arch: Arch,
    image: ModuleImage,
    mapped: Seq<u8>,
    at: int,
    end: int,
) -> bool {
    at + 20 <= end && describes(arch, image, mapped, at)
}

/// An import is looked for in the first descriptor of its module: where the first `k`
/// descriptors name other modules and descriptor `k` names this one, without regard to
/// the case of ASCII letters, its slots and its lookup table decide.
pub proof fn lemma_import_is_looked_for_in_its_module(
    arch: Arch,
    image: ModuleImage,
    mapped: Seq<u8>,
    start: int,
    end: int,
    dll: Seq<char>,
    function: Seq<char>,
    k: int,
)
    requires
        0 <= k,
        forall|i: int|
            0 <= i <= k ==> #[trigger] descriptor_within(
                arch,
                image,
                mapped,
                start + 20 * i,
                end,
            ),
        forall|i: int|
            0 <= i < k ==> ascii_lower_text(
                c_string(
                    arch,
                    image,
                    mapped,
                    (#[trigger] u32_at(mapped, start + 20 * i + 12)) as int,
                )->0,
            ) != ascii_lower_text(dll),
        ascii_lower_text(
            c_string(arch, image, mapped, u32_at(mapped, start + 20 * k + 12) as int)->0,
        ) == ascii_lower_text(dll),
    ensures
        ({
            let table = u32_at(mapped, start + 20 * k);
            let slots = u32_at(mapped, start + 20 * k + 16);
            find_import(arch, image, mapped, start, end, dll, function) == if slots == 0 {
                Err::<u64, InternalIatHookError>(InternalIatHookError::MalformedImportDirectory)
            } else if table == 0 {
                Err(InternalIatHookError::NameResolutionUnavailable)
            } else {
                find_slot(arch, image, mapped, slots as int, table as int, function)
            }
        }),
    decreases k,
{
    assert(descriptor_within(arch, image, mapped, start + 20 * 0, end));
    if k > 0 {
        assert(u32_at(mapped, start + 20 * 0 + 12) == u32_at(mapped, start + 12));
        assert forall|i: int| 0 <= i <= k - 1 implies #[trigger] descriptor_within(
            arch,
            image,
            mapped,
            (start + 20) + 20 * i,
            end,
        ) by {
            assert(descriptor_within(arch, image, mapped, start + 20 * (i + 1), end));
        }
        assert forall|i: int| 0 <= i < k - 1 implies ascii_lower_text(
            c_string(
                arch,
                image,
                mapped,
                (#[trigger] u32_at(mapped, (start + 20) + 20 * i + 12)) as int,
            )->0,
        ) != ascii_lower_text(dll) by {
            assert((start + 20) + 20 * i + 12 == start + 20 * (i + 1) + 12);
            assert(u32_at(mapped, (start + 20) + 20 * i + 12) == u32_at(
                mapped,
                start + 20 * (i + 1) + 12,
            ));
        }
        lemma_import_is_looked_for_in_its_module(
            arch,
            image,
            mapped,
            start + 20,
            end,
            dll,
            function,
            k - 1,
        );
    }
}

/// An import that no descriptor up to the empty one belongs to is not found.
pub proof fn lemma_import_of_another_module_is_not_found(
    arch: Arch,
    image: ModuleImage,
    mapped: Seq<u8>,
    start: int,
    end: int,
    dll: Seq<char>,
    function: Seq<char>,
    k: int,
)
    requires
        0 <= k,
        forall|i: int|
            0 <= i < k ==> #[trigger] descriptor_within(
                arch,
                image,
                mapped,
                start + 20 * i,
                end,
            ),
        forall|i: int|
            0 <= i < k ==> ascii_lower_text(
                c_string(
                    arch,
                    image,
                    mapped,
                    (#[trigger] u32_at(mapped, start + 20 * i + 12)) as int,
                )->0,
            ) != ascii_lower_text(dll),
        start + 20 * k + 20 <= end,
        image_holds(arch, image, mapped, start + 20 * k, 20),
        u32_at(mapped, start + 20 * k + 12) == 0,
    ensures
        find_import(arch, image, mapped, start, end, dll, function) == Err::<
            u64,
            InternalIatHookError,
        >(InternalIatHookError::TargetNotFound),
    decreases k,
{
    if k > 0 {
        assert(descriptor_within(arch, image, mapped, start + 20 * 0, end));
        assert(u32_at(mapped, start + 20 * 0 + 12) == u32_at(mapped, start + 12));
        assert forall|i: int| 0 <= i < k - 1 implies #[trigger] descriptor_within(
            arch,
            image,
            mapped,
            (start + 20) + 20 * i,
            end,
        ) by {
            assert(descriptor_within(arch, image, mapped, start + 20 * (i + 1), end));
        }
        assert forall|i: int| 0 <= i < k - 1 implies ascii_lower_text(
            c_string(
                arch,
                image,
                mapped,
                (#[trigger] u32_at(mapped, (start + 20) + 20 * i + 12)) as int,
            )->0,
        ) != ascii_lower_text(dll) by {
            assert(u32_at(mapped, (start + 20) + 20 * i + 12) == u32_at(
                mapped,
                start + 20 * (i + 1) + 12,
            ));
        }
        lemma_import_of_another_module_is_not_found(
            arch,
            image,
            mapped,
            start + 20,
            end,
            dll,
            function,
            k - 1,
        );
    }
}

/// The slots of a module's imports are looked for in its import directory.
pub proof fn lemma_imports_are_looked_for_in_the_directory(
    arch: Arch,
    mapped: Seq<u8>,
    base: u64,
    image: ModuleImage,
    dll: Seq<char>,
    function: Seq<char>,
)
    requires
        parsed(arch, mapped, base) == Ok::<ModuleImage, PeError>(image),
    ensures
        import_slot(arch, mapped, base, dll, function) == match directory(
            arch,
            image,
            mapped,
            1,
        ) {
            Some((rva, size)) => find_import(
                arch,
                image,
                mapped,
                rva as int,
                rva + size,
                dll,
                function,
            ),
            None => Err(InternalIatHookError::NoImportDirectory),
        },
{
}

/// The parts of an export directory stand at their places in it.
pub proof fn lemma_export_directory_fields(arch: Arch, image: ModuleImage, mapped: Seq<u8>)
    ensures
        export_directory(arch, image, mapped) is Some <==> (directory(
            arch,
            image,
            mapped,
            0,
        ) matches Some((rva, size)) && image_holds(arch, image, mapped, rva as int, 40)),
        export_directory(arch, image, mapped) matches Some(dir) ==> {
            let at = dir.rva as int;
            &&& directory(arch, image, mapped, 0) == Some((dir.rva, dir.size))
            &&& dir.ordinal_base == u32_at(mapped, at + 16)
            &&& dir.functions == u32_at(mapped, at + 20)
            &&& dir.names == u32_at(mapped, at + 24)
            &&& dir.functions_rva == u32_at(mapped, at + 28)
            &&& dir.names_rva == u32_at(mapped, at + 32)
            &&& dir.name_ordinals_rva == u32_at(mapped, at + 36)
        },
{
}

/// Whether name `i` of an export directory names function `function`, and has a place.
pub open spec fn names_function(
    arch: Arch,
    image: ModuleImage,
    mapped: Seq<u8>,
    dir: ExportDirectory,
    i: int,
    function: int,
) -> bool {
    &&& image_u32(arch, image, mapped, dir.names_rva + 4 * i) is Some
    &&& image_u16(arch, image, mapped, dir.name_ordinals_rva + 2 * i) matches Some(named) && named
        == function
}

/// The name of an exported function is the last of the names whose ordinal is the
/// function's index; a function that no name belongs to has none.
pub proof fn lemma_name_belongs_to_its_ordinal(
    arch: Arch,
    image: ModuleImage,
    mapped: Seq<u8>,
    dir: ExportDirectory,
    function: int,
    upto: int,
    i: int,
)
    requires
        0 <= upto,
    ensures
        0 <= i < upto && names_function(arch, image, mapped, dir, i, function) && (forall|j: int|
            i < j < upto ==> !#[trigger] names_function(arch, image, mapped, dir, j, function))
            ==> last_name(arch, image, mapped, dir, function, upto) == image_u32(
            arch,
            image,
            mapped,
            dir.names_rva + 4 * i,
        ),
        (forall|j: int|
            0 <= j < upto ==> !#[trigger] names_function(arch, image, mapped, dir, j, function))
            ==> last_name(arch, image, mapped, dir, function, upto) is None,
    decreases upto,
{
    if upto > 0 {
        lemma_name_belongs_to_its_ordinal(arch, image, mapped, dir, function, upto - 1, i);
        let found = last_name(arch, image, mapped, dir, function, upto);
        if names_function(arch, image, mapped, dir, upto - 1, function) {
            assert(found == image_u32(arch, image, mapped, dir.names_rva + 4 * (upto - 1)));
        } else {
            assert(found == last_name(arch, image, mapped, dir, function, upto - 1));
        }
    }
}

/// What is exported with a function's index: its ordinal counts from the ordinal base,
/// its address from the image's base, and it is forwarded exactly where it points back
/// into the export directory. A function whose entry is zero is not exported.
pub proof fn lemma_export_of_a_function(
    arch: Arch,
    image: ModuleImage,
    mapped: Seq<u8>,
    dir: ExportDirectory,
    function: int,
)
    requires
        0 <= function <= u32::MAX,
    ensures
        match image_u32(arch, image, mapped, dir.functions_rva + 4 * function) {
            Some(rva) => if rva == 0 {
                export_at(arch, image, mapped, dir, function) is None
            } else {
                export_at(arch, image, mapped, dir, function) matches Some(export) && {
                    &&& export.ordinal == (dir.ordinal_base + function) % 0x1_0000_0000
                    &&& export.address == (image.base_address + rva) % limit(arch)
                    &&& export.name == match last_name(
                        arch,
                        image,
                        mapped,
                        dir,
                        function,
                        dir.names as int,
                    ) {
                        Some(name) => c_string(arch, image, mapped, name as int),
                        None => None,
                    }
                    &&& export.forwarder == if dir.rva <= rva < dir.rva + dir.size {
                        c_string(arch, image, mapped, rva as int)
                    } else {
                        None
                    }
                }
            },
            None => export_at(arch, image, mapped, dir, function) is None,
        },
{
}

/// Every exported function is listed once, in the order of the ordinals: a function with
/// an entry adds its export at the end of those before it, any other adds nothing.
pub proof fn lemma_every_export_is_listed(
    arch: Arch,
    image: ModuleImage,
    mapped: Seq<u8>,
    dir: ExportDirectory,
    upto: int,
    function: int,
)
    requires
        0 <= function < upto,
        export_at(arch, image, mapped, dir, function) is Some,
    ensures
        ({
            let list = exports_upto(arch, image, mapped, dir, upto);
            let place = exports_upto(arch, image, mapped, dir, function).len();
            place < list.len() && Some(list[place as int]) == export_at(
                arch,
                image,
                mapped,
                dir,
                function,
            )
        }),
        exports_upto(arch, image, mapped, dir, function).len() <= function,
    decreases upto,
{
    if function < upto - 1 {
        lemma_every_export_is_listed(arch, image, mapped, dir, upto - 1, function);
    } else {
        lemma_exports_are_few(arch, image, mapped, dir, function);
    }
}

/// There are no more exports than functions.
proof fn lemma_exports_are_few(
    arch: Arch,
    image: ModuleImage,
    mapped: Seq<u8>,
    dir: ExportDirectory,
    upto: int,
)
    requires
        0 <= upto,
    ensures
        exports_upto(arch, image, mapped, dir, upto).len() <= upto,
    decreases upto,
{
    if upto > 0 {
        lemma_exports_are_few(arch, image, mapped, dir, upto - 1);
    }
}

/// Every export that is listed is that of a function of the directory.
pub proof fn lemma_only_exports_are_listed(
    arch: Arch,
    image: ModuleImage,
    mapped: Seq<u8>,
    dir: ExportDirectory,
    upto: int,
    i: int,
)
    requires
        0 <= i < exports_upto(arch, image, mapped, dir, upto).len(),
    ensures
        exists|function: int|
            0 <= function < upto && #[trigger] export_at(arch, image, mapped, dir, function)
                == Some(exports_upto(arch, image, mapped, dir, upto)[i]),
    decreases upto,
{
    if i < exports_upto(arch, image, mapped, dir, upto - 1).len() {
        lemma_only_exports_are_listed(arch, image, mapped, dir, upto - 1, i);
    } else {
        assert(export_at(arch, image, mapped, dir, upto - 1) == Some(
            exports_upto(arch, image, mapped, dir, upto)[i],
        ));
    }
}

/// Whether name `i` of an export directory is `name`.
pub open spec fn is_called(
    arch: Arch,
    image: ModuleImage,
    mapped: Seq<u8>,
    dir: ExportDirectory,
    i: int,
    name: Seq<char>,
) -> bool {
    image_u32(arch, image, mapped, dir.names_rva + 4 * i) matches Some(rva) && c_string(
        arch,
        image,
        mapped,
        rva as int,
    ) == Some(name)
}

/// The slot of an export is that of the function that the first name of its own belongs
/// to: the slot stands in the table of functions at the index that the table of ordinals
/// gives for the name, and holds the relative address that is handed out with it.
pub proof fn lemma_export_slot_is_that_of_its_name(
    arch: Arch,
    image: ModuleImage,
    mapped: Seq<u8>,
    dir: ExportDirectory,
    start: int,
    k: int,
    name: Seq<char>,
)
    requires
        0 <= start <= k < dir.names,
        is_called(arch, image, mapped, dir, k, name),
        forall|i: int|
            start <= i < k ==> !#[trigger] is_called(arch, image, mapped, dir, i, name),
    ensures
        find_named(arch, image, mapped, dir, start, name) == match image_u16(
            arch,
            image,
            mapped,
            dir.name_ordinals_rva + 2 * k,
        ) {
            Some(function) => match image_u32(
                arch,
                image,
                mapped,
                dir.functions_rva + 4 * function,
            ) {
                Some(rva) => if function >= dir.functions {
                    Err(EatHookError::ExportTableUnavailable)
                } else if dir.rva <= rva < dir.rva + dir.size {
                    Err(EatHookError::TargetIsForwarder)
                } else {
                    Ok(
                        ExportSlot {
                            slot: (image.base_address + dir.functions_rva + 4 * function) as u64,
                            original_rva: rva,
                        },
                    )
                },
                None => Err(EatHookError::ExportTableUnavailable),
            },
            None => Err(EatHookError::ExportTableUnavailable),
        },
    decreases k - start,
{
    if start < k {
        assert(!is_called(arch, image, mapped, dir, start, name));
        lemma_export_slot_is_that_of_its_name(arch, image, mapped, dir, start + 1, k, name);
    }
}

/// An export that no name stands for is not found.
pub proof fn lemma_unnamed_export_is_not_found(
    arch: Arch,
    image: ModuleImage,
    mapped: Seq<u8>,
    dir: ExportDirectory,
    start: int,
    name: Seq<char>,
)
    requires
        0 <= start,
        forall|i: int|
            start <= i < dir.names ==> !#[trigger] is_called(arch, image, mapped, dir, i, name),
    ensures
        find_named(arch, image, mapped, dir, start, name) == Err::<ExportSlot, EatHookError>(
            EatHookError::TargetNotFound,
        ),
    decreases dir.names - start,
{
    if start < dir.names {
        assert(!is_called(arch, image, mapped, dir, start, name));
        lemma_unnamed_export_is_not_found(arch, image, mapped, dir, start + 1, name);
    }
}

/// The exports of an image are those of all functions of its export directory; without a
/// directory there are none.
pub proof fn lemma_exports_are_those_of_the_directory(
    arch: Arch,
    image: ModuleImage,
    mapped: Seq<u8>,
    function: int,
)
    ensures
        match export_directory(arch, image, mapped) {
            None => exports_of(arch, image, mapped).len() == 0,
            Some(dir) => {
                &&& exports_of(arch, image, mapped).len() <= dir.functions
                &&& 0 <= function < dir.functions ==> match export_at(
                    arch,
                    image,
                    mapped,
                    dir,
                    function,
                ) {
                    Some(export) => exports_of(arch, image, mapped).contains(export),
                    None => true,
                }
            },
        },
{
    match export_directory(arch, image, mapped) {
        None => {},
        Some(dir) => {
            lemma_exports_upto(arch, image, mapped, dir, function, dir.functions as int);
        },
    }
}

/// The same of the first functions of a directory.
proof fn lemma_exports_upto(
    arch: Arch,
    image: ModuleImage,
    mapped: Seq<u8>,
    dir: ExportDirectory,
    function: int,
    upto: int,
)
    requires
        0 <= upto,
    ensures
        exports_upto(arch, image, mapped, dir, upto).len() <= upto,
        0 <= function < upto && export_at(arch, image, mapped, dir, function) is Some
            ==> exports_upto(arch, image, mapped, dir, upto).contains(
            export_at(arch, image, mapped, dir, function)->0,
        ),
    decreases upto,
{
    if upto > 0 {
        lemma_exports_upto(arch, image, mapped, dir, function, upto - 1);
        let before = exports_upto(arch, image, mapped, dir, upto - 1);
        let list = exports_upto(arch, image, mapped, dir, upto);
        if 0 <= function < upto && export_at(arch, image, mapped, dir, function) is Some {
            let export = export_at(arch, image, mapped, dir, function)->0;
            if function < upto - 1 {
                let i = choose|i: int| 0 <= i < before.len() && before[i] == export;
                assert(list[i] == export);
            } else {
                assert(list.last() == export);
            }
        }
    }
}

/// The slot of an export is looked for among all names of the export directory, from the
/// first on; without a directory there is none.
pub proof fn lemma_exports_are_looked_for_in_the_directory(
    arch: Arch,
    image: ModuleImage,
    mapped: Seq<u8>,
    name: Seq<char>,
)
    ensures
        match export_directory(arch, image, mapped) {
            None => export_slot(arch, image, mapped, name) == Err::<ExportSlot, EatHookError>(
                EatHookError::ExportTableUnavailable,
            ),
            Some(dir) => export_slot(arch, image, mapped, name) == find_named(
                arch,
                image,
                mapped,
                dir,
                0,
                name,
            ),
        },
{
}

} // verus!

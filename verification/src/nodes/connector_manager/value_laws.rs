//! What holds of the conversions between values.

use vstd::prelude::*;
use vstd::arithmetic::power2::{
    lemma2_to64,
    lemma_pow2_adds,
    lemma_pow2_pos,
    lemma_pow2_strictly_increases,
    pow2,
};
use crate::nodes::connector_manager::binary32::{
    encoded_integer,
    exponent,
    floor_log2,
    fraction,
    is_nan,
    is_negative,
    lemma_floor_log2_bounds,
    magnitude_bits,
    truncated,
};
use crate::nodes::connector_manager::text::{
    all_digits,
    digits_value,
    has_sign,
    integer_text,
    is_digit,
    natural_text,
    parsed_integer,
    unsigned_part,
};
use crate::nodes::connector_manager::value::{
    converted,
    type_of,
    zero_of,
    ConnectorTypeId,
    Task,
    Value,
};

verus! {

/// A conversion that is carried out gives a value of the type asked for.
pub proof fn law_conversion_gives_the_type(v: Value, target: i32)
    requires
        ConnectorTypeId::is_known(target),
        converted(v, target) is Ok,
    ensures
        type_of(converted(v, target)->Ok_0) == target,
{
}

/// Converting a value to its own type gives the value back.
pub proof fn law_conversion_to_own_type_is_identity(v: Value)
    ensures
        converted(v, type_of(v)) == Ok::<Value, Task>(v),
{
}

/// Every conversion is carried out but that of a `Float` to text and that of
/// a text to `Float`, which end in the work of writing and of reading the
/// number.
pub proof fn law_conversion_ends_in_work_between_float_and_text(v: Value, target: i32)
    requires
        ConnectorTypeId::is_known(target),
    ensures
        ({
            let outcome = converted(v, target);
            let writes = v is Float && target == ConnectorTypeId::STRING;
            let reads = v is Text && target == ConnectorTypeId::FLOAT;
            &&& outcome is Err <==> writes || reads
            &&& writes ==> outcome == Err::<Value, Task>(Task::Format(v->Float_0))
            &&& reads ==> outcome == Err::<Value, Task>(Task::Parse(v->Text_0))
        }),
{
}

/// The absent value converts to the zero of the type asked for.
pub proof fn law_null_converts_to_zero(target: i32)
    requires
        ConnectorTypeId::is_known(target),
    ensures
        converted(Value::Null, target) == Ok::<Value, Task>(zero_of(target)),
{
}

/// The numeral of a natural number is made of digits, and writes that number.
pub proof fn lemma_natural_text_reads_back(n: nat)
    ensures
        natural_text(n).len() > 0,
        all_digits(natural_text(n)),
        digits_value(natural_text(n)) == n,
    decreases n,
{
    if n < 10 {
        assert(natural_text(n).drop_last() =~= Seq::<char>::empty());
        assert(digits_value(natural_text(n).drop_last()) == 0);
    } else {
        lemma_natural_text_reads_back(n / 10);
        assert(natural_text(n).drop_last() =~= natural_text(n / 10));
        assert forall|i: int| 0 <= i < natural_text(n).len() implies is_digit(
            #[trigger] natural_text(n)[i],
        ) by {
            if i < natural_text(n / 10).len() {
                assert(natural_text(n)[i] == natural_text(n / 10)[i]);
            }
        }
    }
}

/// An integer that was written in decimal is read back as itself.
pub proof fn law_integer_text_reads_back(v: i32)
    ensures
        parsed_integer(integer_text(v as int)) == Some(v),
{
    let s = integer_text(v as int);
    if v < 0 {
        let digits = natural_text((-v) as nat);
        lemma_natural_text_reads_back((-v) as nat);
        assert(s[0] == '-');
        assert(has_sign(s));
        assert(unsigned_part(s) =~= digits);
    } else {
        lemma_natural_text_reads_back(v as nat);
        assert(is_digit(s[0]));
        assert(!has_sign(s));
    }
}

/// What `truncated` is of an encoding that is given by its parts, for a number
/// of magnitude from one up to `2^31`.
proof fn lemma_truncated_of_parts(bits: u32, e: int, f: int)
    requires
        magnitude_bits(bits) == e * 0x80_0000 + f,
        0 <= f < 0x80_0000,
        127 <= e < 158,
    ensures
        e < 150 ==> truncated(bits) == if is_negative(bits) {
            -((0x80_0000 + f) / (pow2((150 - e) as nat) as int))
        } else {
            (0x80_0000 + f) / (pow2((150 - e) as nat) as int)
        },
        e >= 150 ==> truncated(bits) == if is_negative(bits) {
            -((0x80_0000 + f) * pow2((e - 150) as nat))
        } else {
            (0x80_0000 + f) * pow2((e - 150) as nat)
        },
{
    assert(exponent(bits) == e);
    assert(fraction(bits) == f);
    assert(!is_nan(bits));
}

/// An integer of at most 24 bits is a single-precision number exactly: its
/// encoding, rounded toward zero, is the integer again.
pub proof fn law_small_integer_survives_float(v: i32)
    requires
        -0x100_0000 <= v <= 0x100_0000,
    ensures
        truncated(encoded_integer(v as int)) == v,
{
    lemma2_to64();
    if v == 0 {
        assert(truncated(0) == 0);
    } else {
        let a: int = if v < 0 {
            -v
        } else {
            v as int
        };
        let e = floor_log2(a as nat) as int;
        lemma_floor_log2_bounds(a as nat);
        assert(e <= 24) by {
            if e > 24 {
                lemma_pow2_strictly_increases(24, e as nat);
            }
        }
        let sign: int = if v < 0 {
            0x8000_0000
        } else {
            0
        };
        let bits = encoded_integer(v as int);
        if e <= 23 {
            let scale = pow2((23 - e) as nat) as int;
            let significand = a * scale;
            lemma_pow2_pos((23 - e) as nat);
            lemma_pow2_adds(e as nat, (23 - e) as nat);
            lemma_pow2_adds((e + 1) as nat, (23 - e) as nat);
            assert(0x80_0000 <= significand < 0x100_0000) by (nonlinear_arith)
                requires
                    significand == a * scale,
                    pow2(e as nat) <= a < pow2((e + 1) as nat),
                    scale > 0,
                    pow2(e as nat) * scale == 0x80_0000,
                    pow2((e + 1) as nat) * scale == 0x100_0000,
            ;
            assert(bits == sign + (e + 127) * 0x80_0000 + (significand - 0x80_0000));
            assert(magnitude_bits(bits) == (e + 127) * 0x80_0000 + (significand - 0x80_0000));
            assert(is_negative(bits) == (v < 0));
            lemma_truncated_of_parts(bits, e + 127, significand - 0x80_0000);
            assert(0x80_0000 + (significand - 0x80_0000) == significand);
            if e < 23 {
                assert((150 - (e + 127)) as nat == (23 - e) as nat);
                assert(significand / scale == a) by (nonlinear_arith)
                    requires
                        significand == a * scale,
                        scale > 0,
                ;
            } else {
                assert(((e + 127) - 150) as nat == 0);
                assert(significand * pow2(0) == a) by (nonlinear_arith)
                    requires
                        significand == a * scale,
                        scale == 1,
                        pow2(0) == 1,
                ;
            }
        } else {
            assert(a == 0x100_0000);
            assert(e == 24);
            assert(pow2((e - 23) as nat) == 2);
            assert(bits == sign + 151 * 0x80_0000);
            assert(magnitude_bits(bits) == 151 * 0x80_0000 + 0);
            assert(is_negative(bits) == (v < 0));
            lemma_truncated_of_parts(bits, 151, 0);
            assert((151 - 150) as nat == 1);
            assert((0x80_0000 + 0) * pow2(1) == 0x100_0000);
        }
    }
}

} // verus!

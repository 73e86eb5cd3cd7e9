//! A proof that the standard polynomial is primitive, and the counting
//! argument behind it.
use vstd::prelude::*;
use vstd::set_lib::{lemma_int_range, lemma_len_subset, lemma_subset_equality, set_int_range};

use crate::tables::{is_primitive, mul_x, power, power_seq, PRIMITIVE_POLYNOMIAL};

verus! {

/// Any 255 distinct nonzero bytes are all the nonzero bytes.
pub proof fn lemma_distinct_nonzero_covers(s: Seq<u8>)
    requires
        s.len() == 255,
        forall|i: int, j: int| 0 <= i < j < s.len() ==> s[i] != s[j],
        forall|i: int| 0 <= i < s.len() ==> s[i] != 0,
    ensures
        forall|a: u8| a != 0 ==> #[trigger] s.contains(a),
{
    let si = s.map_values(|x: u8| x as int);
    assert(si.no_duplicates()) by {
        assert forall|i: int, j: int| 0 <= i < si.len() && 0 <= j < si.len() && i != j implies si[i]
            != si[j] by {
            if i < j {
                assert(s[i] != s[j]);
            } else {
                assert(s[j] != s[i]);
            }
        }
    }
    si.unique_seq_to_set();
    let range = set_int_range(1, 256);
    lemma_int_range(1, 256);
    assert(si.to_set().subset_of(range)) by {
        assert forall|v: int| si.to_set().contains(v) implies range.contains(v) by {
            let i = choose|i: int| 0 <= i < si.len() && si[i] == v;
            assert(s[i] != 0);
        }
    }
    lemma_subset_equality(si.to_set(), range);
    assert forall|a: u8| a != 0 implies #[trigger] s.contains(a) by {
        assert(range.contains(a as int));
        assert(si.to_set().contains(a as int));
        let i = choose|i: int| 0 <= i < si.len() && si[i] == a as int;
        assert(s[i] == a);
    }
}

/// Under an even polynomial every multiple of `x` is even, and only an even
/// polynomial sends a nonzero element to zero.
proof fn lemma_mul_x_parity(poly: u8)
    ensures
        poly % 2 == 0 ==> forall|a: u8| #[trigger] mul_x(poly, a) % 2 == 0,
        forall|a: u8| a != 0 && #[trigger] mul_x(poly, a) == 0 ==> poly % 2 == 0,
{
    assert(poly % 2 == 0 ==> forall|a: u8| #[trigger] mul_x(poly, a) % 2 == 0) by (bit_vector);
    assert(forall|a: u8| a != 0 && #[trigger] mul_x(poly, a) == 0 ==> poly % 2 == 0)
        by (bit_vector);
}

/// Under an even polynomial the powers after the zeroth are even, so fewer
/// than 254 of them can be distinct.
proof fn lemma_even_powers_repeat(poly: u8)
    requires
        poly % 2 == 0,
    ensures
        !(forall|i: int, j: int|
            0 <= i < j < 255 ==> #[trigger] power(poly, i as nat) != #[trigger] power(
                poly,
                j as nat,
            )),
{
    if forall|i: int, j: int|
        0 <= i < j < 255 ==> #[trigger] power(poly, i as nat) != #[trigger] power(poly, j as nat) {
        lemma_mul_x_parity(poly);
        let t = Seq::new(254, |i: int| power(poly, (i + 1) as nat) as int / 2);
        assert forall|i: int| 0 <= i < 254 implies #[trigger] power(poly, (i + 1) as nat) % 2 == 0 by {
            assert(power(poly, (i + 1) as nat) == mul_x(poly, power(poly, i as nat)));
        }
        assert(t.no_duplicates()) by {
            assert forall|i: int, j: int| 0 <= i < t.len() && 0 <= j < t.len() && i != j implies t[i]
                != t[j] by {
                assert(power(poly, (i + 1) as nat) % 2 == 0);
                assert(power(poly, (j + 1) as nat) % 2 == 0);
                if i < j {
                    assert(power(poly, (i + 1) as nat) != power(poly, (j + 1) as nat));
                } else {
                    assert(power(poly, (j + 1) as nat) != power(poly, (i + 1) as nat));
                }
            }
        }
        t.unique_seq_to_set();
        lemma_int_range(0, 128);
        assert(t.to_set().subset_of(set_int_range(0, 128))) by {
            assert forall|v: int| t.to_set().contains(v) implies set_int_range(0, 128).contains(v) by {
                let i = choose|i: int| 0 <= i < t.len() && t[i] == v;
            }
        }
        lemma_len_subset(t.to_set(), set_int_range(0, 128));
    }
}

/// A polynomial is primitive exactly when its first 255 powers of `x` are
/// pairwise distinct: that they are nonzero and reach every nonzero element
/// then follows.
pub proof fn lemma_primitive_iff_distinct(poly: u8)
    ensures
        is_primitive(poly) <==> forall|i: int, j: int|
            0 <= i < j < 255 ==> #[trigger] power(poly, i as nat) != #[trigger] power(
                poly,
                j as nat,
            ),
{
    let s = power_seq(poly);
    if forall|i: int, j: int|
        0 <= i < j < 255 ==> #[trigger] power(poly, i as nat) != #[trigger] power(poly, j as nat) {
        assert forall|i: int, j: int| 0 <= i < j < s.len() implies s[i] != s[j] by {
            assert(power(poly, i as nat) != power(poly, j as nat));
        }
        assert forall|k: int| 0 <= k < s.len() implies s[k] != 0 by {
            if s[k] == 0 {
                if k < 254 {
                    assert(power(poly, (k + 1) as nat) == mul_x(poly, power(poly, k as nat)));
                    assert(power(poly, k as nat) != power(poly, (k + 1) as nat));
                } else {
                    assert(power(poly, 254) == mul_x(poly, power(poly, 253)));
                    if power(poly, 253) == 0 {
                        assert(power(poly, 253) != power(poly, 254));
                    }
                    lemma_mul_x_parity(poly);
                    lemma_even_powers_repeat(poly);
                    assert(false);
                }
            }
        }
        lemma_distinct_nonzero_covers(s);
    } else {
        if is_primitive(poly) {
            let (i, j) = choose|i: int, j: int|
                0 <= i < j < 255 && #[trigger] power(poly, i as nat) == #[trigger] power(
                    poly,
                    j as nat,
                );
            assert(s[i] != s[j]);
        }
    }
}

/// Under an odd polynomial, multiplication by `x` is one to one and keeps
/// nonzero elements nonzero.
proof fn lemma_mul_x_odd(poly: u8)
    requires
        poly % 2 == 1,
    ensures
        forall|a: u8, b: u8| #[trigger] mul_x(poly, a) == #[trigger] mul_x(poly, b) ==> a == b,
        forall|a: u8| a != 0 ==> #[trigger] mul_x(poly, a) != 0,
{
    assert(forall|a: u8, b: u8|
        #[trigger] mul_x(poly, a) == #[trigger] mul_x(poly, b) ==> a == b) by (bit_vector)
        requires
            poly % 2 == 1,
    ;
    assert(forall|a: u8| a != 0 ==> #[trigger] mul_x(poly, a) != 0) by (bit_vector)
        requires
            poly % 2 == 1,
    ;
}

/// Once the powers return to one they repeat with that period.
proof fn lemma_power_period(poly: u8, m: nat, n: nat)
    requires
        m > 0,
        power(poly, m) == 1,
    ensures
        power(poly, n) == power(poly, n % m),
    decreases n,
{
    if n >= m {
        lemma_power_period(poly, m, (n - m) as nat);
        lemma_power_shift(poly, m, (n - m) as nat);
        assert((n - m) as nat % m == n % m) by {
            vstd::arithmetic::div_mod::lemma_mod_sub_multiples_vanish(n as int, m as int);
        }
    } else {
        vstd::arithmetic::div_mod::lemma_small_mod(n, m);
    }
}

proof fn lemma_power_shift(poly: u8, m: nat, n: nat)
    requires
        power(poly, m) == 1,
    ensures
        power(poly, m + n) == power(poly, n),
    decreases n,
{
    if n > 0 {
        lemma_power_shift(poly, m, (n - 1) as nat);
        assert(power(poly, m + n) == mul_x(poly, power(poly, (m + n - 1) as nat)));
    }
}

/// Equal powers under an odd polynomial are one apart by a power equal to one.
proof fn lemma_power_cancel(poly: u8, i: nat, j: nat)
    requires
        poly % 2 == 1,
        i <= j,
        power(poly, i) == power(poly, j),
    ensures
        power(poly, (j - i) as nat) == 1,
    decreases i,
{
    if i > 0 {
        lemma_mul_x_odd(poly);
        assert(mul_x(poly, power(poly, (i - 1) as nat)) == mul_x(poly, power(poly, (j - 1) as nat)));
        lemma_power_cancel(poly, (i - 1) as nat, (j - 1) as nat);
    }
}

proof fn lemma_power_nonzero(poly: u8, k: nat)
    requires
        poly % 2 == 1,
    ensures
        power(poly, k) != 0,
    decreases k,
{
    if k > 0 {
        lemma_mul_x_odd(poly);
        lemma_power_nonzero(poly, (k - 1) as nat);
    }
}

proof fn lemma_divisors_of_group_order(d: u8)
    by (bit_vector)
    requires
        0 < d < 255,
        255u8 % d == 0,
    ensures
        15u8 % d == 0 || 51u8 % d == 0 || 85u8 % d == 0,
{
}

/// The powers of `x` under the standard polynomial, one step at a time,
/// until they return to one.
proof fn lemma_standard_orbit()
    ensures
        power(PRIMITIVE_POLYNOMIAL, 15) != 1,
        power(PRIMITIVE_POLYNOMIAL, 51) != 1,
        power(PRIMITIVE_POLYNOMIAL, 85) != 1,
        power(PRIMITIVE_POLYNOMIAL, 255) == 1,
{
    assert({
        &&& mul_x(0x1d, 1) == 2
        &&& mul_x(0x1d, 2) == 4
        &&& mul_x(0x1d, 4) == 8
        &&& mul_x(0x1d, 8) == 16
        &&& mul_x(0x1d, 16) == 32
        &&& mul_x(0x1d, 32) == 64
        &&& mul_x(0x1d, 64) == 128
        &&& mul_x(0x1d, 128) == 29
        &&& mul_x(0x1d, 29) == 58
        &&& mul_x(0x1d, 58) == 116
        &&& mul_x(0x1d, 116) == 232
        &&& mul_x(0x1d, 232) == 205
        &&& mul_x(0x1d, 205) == 135
        &&& mul_x(0x1d, 135) == 19
        &&& mul_x(0x1d, 19) == 38
        &&& mul_x(0x1d, 38) == 76
        &&& mul_x(0x1d, 76) == 152
        &&& mul_x(0x1d, 152) == 45
        &&& mul_x(0x1d, 45) == 90
        &&& mul_x(0x1d, 90) == 180
        &&& mul_x(0x1d, 180) == 117
        &&& mul_x(0x1d, 117) == 234
        &&& mul_x(0x1d, 234) == 201
        &&& mul_x(0x1d, 201) == 143
        &&& mul_x(0x1d, 143) == 3
        &&& mul_x(0x1d, 3) == 6
        &&& mul_x(0x1d, 6) == 12
        &&& mul_x(0x1d, 12) == 24
        &&& mul_x(0x1d, 24) == 48
        &&& mul_x(0x1d, 48) == 96
        &&& mul_x(0x1d, 96) == 192
        &&& mul_x(0x1d, 192) == 157
        &&& mul_x(0x1d, 157) == 39
        &&& mul_x(0x1d, 39) == 78
        &&& mul_x(0x1d, 78) == 156
        &&& mul_x(0x1d, 156) == 37
        &&& mul_x(0x1d, 37) == 74
        &&& mul_x(0x1d, 74) == 148
        &&& mul_x(0x1d, 148) == 53
        &&& mul_x(0x1d, 53) == 106
        &&& mul_x(0x1d, 106) == 212
        &&& mul_x(0x1d, 212) == 181
        &&& mul_x(0x1d, 181) == 119
        &&& mul_x(0x1d, 119) == 238
        &&& mul_x(0x1d, 238) == 193
        &&& mul_x(0x1d, 193) == 159
        &&& mul_x(0x1d, 159) == 35
        &&& mul_x(0x1d, 35) == 70
        &&& mul_x(0x1d, 70) == 140
        &&& mul_x(0x1d, 140) == 5
        &&& mul_x(0x1d, 5) == 10
        &&& mul_x(0x1d, 10) == 20
        &&& mul_x(0x1d, 20) == 40
        &&& mul_x(0x1d, 40) == 80
        &&& mul_x(0x1d, 80) == 160
        &&& mul_x(0x1d, 160) == 93
        &&& mul_x(0x1d, 93) == 186
        &&& mul_x(0x1d, 186) == 105
        &&& mul_x(0x1d, 105) == 210
        &&& mul_x(0x1d, 210) == 185
        &&& mul_x(0x1d, 185) == 111
        &&& mul_x(0x1d, 111) == 222
        &&& mul_x(0x1d, 222) == 161
        &&& mul_x(0x1d, 161) == 95
        &&& mul_x(0x1d, 95) == 190
        &&& mul_x(0x1d, 190) == 97
        &&& mul_x(0x1d, 97) == 194
        &&& mul_x(0x1d, 194) == 153
        &&& mul_x(0x1d, 153) == 47
        &&& mul_x(0x1d, 47) == 94
        &&& mul_x(0x1d, 94) == 188
        &&& mul_x(0x1d, 188) == 101
        &&& mul_x(0x1d, 101) == 202
        &&& mul_x(0x1d, 202) == 137
        &&& mul_x(0x1d, 137) == 15
        &&& mul_x(0x1d, 15) == 30
        &&& mul_x(0x1d, 30) == 60
        &&& mul_x(0x1d, 60) == 120
        &&& mul_x(0x1d, 120) == 240
        &&& mul_x(0x1d, 240) == 253
        &&& mul_x(0x1d, 253) == 231
        &&& mul_x(0x1d, 231) == 211
        &&& mul_x(0x1d, 211) == 187
        &&& mul_x(0x1d, 187) == 107
        &&& mul_x(0x1d, 107) == 214
        &&& mul_x(0x1d, 214) == 177
        &&& mul_x(0x1d, 177) == 127
        &&& mul_x(0x1d, 127) == 254
        &&& mul_x(0x1d, 254) == 225
        &&& mul_x(0x1d, 225) == 223
        &&& mul_x(0x1d, 223) == 163
        &&& mul_x(0x1d, 163) == 91
        &&& mul_x(0x1d, 91) == 182
        &&& mul_x(0x1d, 182) == 113
        &&& mul_x(0x1d, 113) == 226
        &&& mul_x(0x1d, 226) == 217
        &&& mul_x(0x1d, 217) == 175
        &&& mul_x(0x1d, 175) == 67
        &&& mul_x(0x1d, 67) == 134
        &&& mul_x(0x1d, 134) == 17
        &&& mul_x(0x1d, 17) == 34
        &&& mul_x(0x1d, 34) == 68
        &&& mul_x(0x1d, 68) == 136
        &&& mul_x(0x1d, 136) == 13
        &&& mul_x(0x1d, 13) == 26
        &&& mul_x(0x1d, 26) == 52
        &&& mul_x(0x1d, 52) == 104
        &&& mul_x(0x1d, 104) == 208
        &&& mul_x(0x1d, 208) == 189
        &&& mul_x(0x1d, 189) == 103
        &&& mul_x(0x1d, 103) == 206
        &&& mul_x(0x1d, 206) == 129
        &&& mul_x(0x1d, 129) == 31
        &&& mul_x(0x1d, 31) == 62
        &&& mul_x(0x1d, 62) == 124
        &&& mul_x(0x1d, 124) == 248
        &&& mul_x(0x1d, 248) == 237
        &&& mul_x(0x1d, 237) == 199
        &&& mul_x(0x1d, 199) == 147
        &&& mul_x(0x1d, 147) == 59
        &&& mul_x(0x1d, 59) == 118
        &&& mul_x(0x1d, 118) == 236
        &&& mul_x(0x1d, 236) == 197
        &&& mul_x(0x1d, 197) == 151
        &&& mul_x(0x1d, 151) == 51
        &&& mul_x(0x1d, 51) == 102
        &&& mul_x(0x1d, 102) == 204
        &&& mul_x(0x1d, 204) == 133
        &&& mul_x(0x1d, 133) == 23
        &&& mul_x(0x1d, 23) == 46
        &&& mul_x(0x1d, 46) == 92
        &&& mul_x(0x1d, 92) == 184
        &&& mul_x(0x1d, 184) == 109
        &&& mul_x(0x1d, 109) == 218
        &&& mul_x(0x1d, 218) == 169
        &&& mul_x(0x1d, 169) == 79
        &&& mul_x(0x1d, 79) == 158
        &&& mul_x(0x1d, 158) == 33
        &&& mul_x(0x1d, 33) == 66
        &&& mul_x(0x1d, 66) == 132
        &&& mul_x(0x1d, 132) == 21
        &&& mul_x(0x1d, 21) == 42
        &&& mul_x(0x1d, 42) == 84
        &&& mul_x(0x1d, 84) == 168
        &&& mul_x(0x1d, 168) == 77
        &&& mul_x(0x1d, 77) == 154
        &&& mul_x(0x1d, 154) == 41
        &&& mul_x(0x1d, 41) == 82
        &&& mul_x(0x1d, 82) == 164
        &&& mul_x(0x1d, 164) == 85
        &&& mul_x(0x1d, 85) == 170
        &&& mul_x(0x1d, 170) == 73
        &&& mul_x(0x1d, 73) == 146
        &&& mul_x(0x1d, 146) == 57
        &&& mul_x(0x1d, 57) == 114
        &&& mul_x(0x1d, 114) == 228
        &&& mul_x(0x1d, 228) == 213
        &&& mul_x(0x1d, 213) == 183
        &&& mul_x(0x1d, 183) == 115
        &&& mul_x(0x1d, 115) == 230
        &&& mul_x(0x1d, 230) == 209
        &&& mul_x(0x1d, 209) == 191
        &&& mul_x(0x1d, 191) == 99
        &&& mul_x(0x1d, 99) == 198
        &&& mul_x(0x1d, 198) == 145
        &&& mul_x(0x1d, 145) == 63
        &&& mul_x(0x1d, 63) == 126
        &&& mul_x(0x1d, 126) == 252
        &&& mul_x(0x1d, 252) == 229
        &&& mul_x(0x1d, 229) == 215
        &&& mul_x(0x1d, 215) == 179
        &&& mul_x(0x1d, 179) == 123
        &&& mul_x(0x1d, 123) == 246
        &&& mul_x(0x1d, 246) == 241
        &&& mul_x(0x1d, 241) == 255
        &&& mul_x(0x1d, 255) == 227
        &&& mul_x(0x1d, 227) == 219
        &&& mul_x(0x1d, 219) == 171
        &&& mul_x(0x1d, 171) == 75
        &&& mul_x(0x1d, 75) == 150
        &&& mul_x(0x1d, 150) == 49
        &&& mul_x(0x1d, 49) == 98
        &&& mul_x(0x1d, 98) == 196
        &&& mul_x(0x1d, 196) == 149
        &&& mul_x(0x1d, 149) == 55
        &&& mul_x(0x1d, 55) == 110
        &&& mul_x(0x1d, 110) == 220
        &&& mul_x(0x1d, 220) == 165
        &&& mul_x(0x1d, 165) == 87
        &&& mul_x(0x1d, 87) == 174
        &&& mul_x(0x1d, 174) == 65
        &&& mul_x(0x1d, 65) == 130
        &&& mul_x(0x1d, 130) == 25
        &&& mul_x(0x1d, 25) == 50
        &&& mul_x(0x1d, 50) == 100
        &&& mul_x(0x1d, 100) == 200
        &&& mul_x(0x1d, 200) == 141
        &&& mul_x(0x1d, 141) == 7
        &&& mul_x(0x1d, 7) == 14
        &&& mul_x(0x1d, 14) == 28
        &&& mul_x(0x1d, 28) == 56
        &&& mul_x(0x1d, 56) == 112
        &&& mul_x(0x1d, 112) == 224
        &&& mul_x(0x1d, 224) == 221
        &&& mul_x(0x1d, 221) == 167
        &&& mul_x(0x1d, 167) == 83
        &&& mul_x(0x1d, 83) == 166
        &&& mul_x(0x1d, 166) == 81
        &&& mul_x(0x1d, 81) == 162
        &&& mul_x(0x1d, 162) == 89
        &&& mul_x(0x1d, 89) == 178
        &&& mul_x(0x1d, 178) == 121
        &&& mul_x(0x1d, 121) == 242
        &&& mul_x(0x1d, 242) == 249
        &&& mul_x(0x1d, 249) == 239
        &&& mul_x(0x1d, 239) == 195
        &&& mul_x(0x1d, 195) == 155
        &&& mul_x(0x1d, 155) == 43
        &&& mul_x(0x1d, 43) == 86
        &&& mul_x(0x1d, 86) == 172
        &&& mul_x(0x1d, 172) == 69
        &&& mul_x(0x1d, 69) == 138
        &&& mul_x(0x1d, 138) == 9
        &&& mul_x(0x1d, 9) == 18
        &&& mul_x(0x1d, 18) == 36
        &&& mul_x(0x1d, 36) == 72
        &&& mul_x(0x1d, 72) == 144
        &&& mul_x(0x1d, 144) == 61
        &&& mul_x(0x1d, 61) == 122
        &&& mul_x(0x1d, 122) == 244
        &&& mul_x(0x1d, 244) == 245
        &&& mul_x(0x1d, 245) == 247
        &&& mul_x(0x1d, 247) == 243
        &&& mul_x(0x1d, 243) == 251
        &&& mul_x(0x1d, 251) == 235
        &&& mul_x(0x1d, 235) == 203
        &&& mul_x(0x1d, 203) == 139
        &&& mul_x(0x1d, 139) == 11
        &&& mul_x(0x1d, 11) == 22
        &&& mul_x(0x1d, 22) == 44
        &&& mul_x(0x1d, 44) == 88
        &&& mul_x(0x1d, 88) == 176
        &&& mul_x(0x1d, 176) == 125
        &&& mul_x(0x1d, 125) == 250
        &&& mul_x(0x1d, 250) == 233
        &&& mul_x(0x1d, 233) == 207
        &&& mul_x(0x1d, 207) == 131
        &&& mul_x(0x1d, 131) == 27
        &&& mul_x(0x1d, 27) == 54
        &&& mul_x(0x1d, 54) == 108
        &&& mul_x(0x1d, 108) == 216
        &&& mul_x(0x1d, 216) == 173
        &&& mul_x(0x1d, 173) == 71
        &&& mul_x(0x1d, 71) == 142
        &&& mul_x(0x1d, 142) == 1
    }) by (bit_vector);
    let p: u8 = 0x1d;
    assert(power(p, 0) == 1);
    assert(power(p, 1) == 2);
    assert(power(p, 2) == 4);
    assert(power(p, 3) == 8);
    assert(power(p, 4) == 16);
    assert(power(p, 5) == 32);
    assert(power(p, 6) == 64);
    assert(power(p, 7) == 128);
    assert(power(p, 8) == 29);
    assert(power(p, 9) == 58);
    assert(power(p, 10) == 116);
    assert(power(p, 11) == 232);
    assert(power(p, 12) == 205);
    assert(power(p, 13) == 135);
    assert(power(p, 14) == 19);
    assert(power(p, 15) == 38);
    assert(power(p, 16) == 76);
    assert(power(p, 17) == 152);
    assert(power(p, 18) == 45);
    assert(power(p, 19) == 90);
    assert(power(p, 20) == 180);
    assert(power(p, 21) == 117);
    assert(power(p, 22) == 234);
    assert(power(p, 23) == 201);
    assert(power(p, 24) == 143);
    assert(power(p, 25) == 3);
    assert(power(p, 26) == 6);
    assert(power(p, 27) == 12);
    assert(power(p, 28) == 24);
    assert(power(p, 29) == 48);
    assert(power(p, 30) == 96);
    assert(power(p, 31) == 192);
    assert(power(p, 32) == 157);
    assert(power(p, 33) == 39);
    assert(power(p, 34) == 78);
    assert(power(p, 35) == 156);
    assert(power(p, 36) == 37);
    assert(power(p, 37) == 74);
    assert(power(p, 38) == 148);
    assert(power(p, 39) == 53);
    assert(power(p, 40) == 106);
    assert(power(p, 41) == 212);
    assert(power(p, 42) == 181);
    assert(power(p, 43) == 119);
    assert(power(p, 44) == 238);
    assert(power(p, 45) == 193);
    assert(power(p, 46) == 159);
    assert(power(p, 47) == 35);
    assert(power(p, 48) == 70);
    assert(power(p, 49) == 140);
    assert(power(p, 50) == 5);
    assert(power(p, 51) == 10);
    assert(power(p, 52) == 20);
    assert(power(p, 53) == 40);
    assert(power(p, 54) == 80);
    assert(power(p, 55) == 160);
    assert(power(p, 56) == 93);
    assert(power(p, 57) == 186);
    assert(power(p, 58) == 105);
    assert(power(p, 59) == 210);
    assert(power(p, 60) == 185);
    assert(power(p, 61) == 111);
    assert(power(p, 62) == 222);
    assert(power(p, 63) == 161);
    assert(power(p, 64) == 95);
    assert(power(p, 65) == 190);
    assert(power(p, 66) == 97);
    assert(power(p, 67) == 194);
    assert(power(p, 68) == 153);
    assert(power(p, 69) == 47);
    assert(power(p, 70) == 94);
    assert(power(p, 71) == 188);
    assert(power(p, 72) == 101);
    assert(power(p, 73) == 202);
    assert(power(p, 74) == 137);
    assert(power(p, 75) == 15);
    assert(power(p, 76) == 30);
    assert(power(p, 77) == 60);
    assert(power(p, 78) == 120);
    assert(power(p, 79) == 240);
    assert(power(p, 80) == 253);
    assert(power(p, 81) == 231);
    assert(power(p, 82) == 211);
    assert(power(p, 83) == 187);
    assert(power(p, 84) == 107);
    assert(power(p, 85) == 214);
    assert(power(p, 86) == 177);
    assert(power(p, 87) == 127);
    assert(power(p, 88) == 254);
    assert(power(p, 89) == 225);
    assert(power(p, 90) == 223);
    assert(power(p, 91) == 163);
    assert(power(p, 92) == 91);
    assert(power(p, 93) == 182);
    assert(power(p, 94) == 113);
    assert(power(p, 95) == 226);
    assert(power(p, 96) == 217);
    assert(power(p, 97) == 175);
    assert(power(p, 98) == 67);
    assert(power(p, 99) == 134);
    assert(power(p, 100) == 17);
    assert(power(p, 101) == 34);
    assert(power(p, 102) == 68);
    assert(power(p, 103) == 136);
    assert(power(p, 104) == 13);
    assert(power(p, 105) == 26);
    assert(power(p, 106) == 52);
    assert(power(p, 107) == 104);
    assert(power(p, 108) == 208);
    assert(power(p, 109) == 189);
    assert(power(p, 110) == 103);
    assert(power(p, 111) == 206);
    assert(power(p, 112) == 129);
    assert(power(p, 113) == 31);
    assert(power(p, 114) == 62);
    assert(power(p, 115) == 124);
    assert(power(p, 116) == 248);
    assert(power(p, 117) == 237);
    assert(power(p, 118) == 199);
    assert(power(p, 119) == 147);
    assert(power(p, 120) == 59);
    assert(power(p, 121) == 118);
    assert(power(p, 122) == 236);
    assert(power(p, 123) == 197);
    assert(power(p, 124) == 151);
    assert(power(p, 125) == 51);
    assert(power(p, 126) == 102);
    assert(power(p, 127) == 204);
    assert(power(p, 128) == 133);
    assert(power(p, 129) == 23);
    assert(power(p, 130) == 46);
    assert(power(p, 131) == 92);
    assert(power(p, 132) == 184);
    assert(power(p, 133) == 109);
    assert(power(p, 134) == 218);
    assert(power(p, 135) == 169);
    assert(power(p, 136) == 79);
    assert(power(p, 137) == 158);
    assert(power(p, 138) == 33);
    assert(power(p, 139) == 66);
    assert(power(p, 140) == 132);
    assert(power(p, 141) == 21);
    assert(power(p, 142) == 42);
    assert(power(p, 143) == 84);
    assert(power(p, 144) == 168);
    assert(power(p, 145) == 77);
    assert(power(p, 146) == 154);
    assert(power(p, 147) == 41);
    assert(power(p, 148) == 82);
    assert(power(p, 149) == 164);
    assert(power(p, 150) == 85);
    assert(power(p, 151) == 170);
    assert(power(p, 152) == 73);
    assert(power(p, 153) == 146);
    assert(power(p, 154) == 57);
    assert(power(p, 155) == 114);
    assert(power(p, 156) == 228);
    assert(power(p, 157) == 213);
    assert(power(p, 158) == 183);
    assert(power(p, 159) == 115);
    assert(power(p, 160) == 230);
    assert(power(p, 161) == 209);
    assert(power(p, 162) == 191);
    assert(power(p, 163) == 99);
    assert(power(p, 164) == 198);
    assert(power(p, 165) == 145);
    assert(power(p, 166) == 63);
    assert(power(p, 167) == 126);
    assert(power(p, 168) == 252);
    assert(power(p, 169) == 229);
    assert(power(p, 170) == 215);
    assert(power(p, 171) == 179);
    assert(power(p, 172) == 123);
    assert(power(p, 173) == 246);
    assert(power(p, 174) == 241);
    assert(power(p, 175) == 255);
    assert(power(p, 176) == 227);
    assert(power(p, 177) == 219);
    assert(power(p, 178) == 171);
    assert(power(p, 179) == 75);
    assert(power(p, 180) == 150);
    assert(power(p, 181) == 49);
    assert(power(p, 182) == 98);
    assert(power(p, 183) == 196);
    assert(power(p, 184) == 149);
    assert(power(p, 185) == 55);
    assert(power(p, 186) == 110);
    assert(power(p, 187) == 220);
    assert(power(p, 188) == 165);
    assert(power(p, 189) == 87);
    assert(power(p, 190) == 174);
    assert(power(p, 191) == 65);
    assert(power(p, 192) == 130);
    assert(power(p, 193) == 25);
    assert(power(p, 194) == 50);
    assert(power(p, 195) == 100);
    assert(power(p, 196) == 200);
    assert(power(p, 197) == 141);
    assert(power(p, 198) == 7);
    assert(power(p, 199) == 14);
    assert(power(p, 200) == 28);
    assert(power(p, 201) == 56);
    assert(power(p, 202) == 112);
    assert(power(p, 203) == 224);
    assert(power(p, 204) == 221);
    assert(power(p, 205) == 167);
    assert(power(p, 206) == 83);
    assert(power(p, 207) == 166);
    assert(power(p, 208) == 81);
    assert(power(p, 209) == 162);
    assert(power(p, 210) == 89);
    assert(power(p, 211) == 178);
    assert(power(p, 212) == 121);
    assert(power(p, 213) == 242);
    assert(power(p, 214) == 249);
    assert(power(p, 215) == 239);
    assert(power(p, 216) == 195);
    assert(power(p, 217) == 155);
    assert(power(p, 218) == 43);
    assert(power(p, 219) == 86);
    assert(power(p, 220) == 172);
    assert(power(p, 221) == 69);
    assert(power(p, 222) == 138);
    assert(power(p, 223) == 9);
    assert(power(p, 224) == 18);
    assert(power(p, 225) == 36);
    assert(power(p, 226) == 72);
    assert(power(p, 227) == 144);
    assert(power(p, 228) == 61);
    assert(power(p, 229) == 122);
    assert(power(p, 230) == 244);
    assert(power(p, 231) == 245);
    assert(power(p, 232) == 247);
    assert(power(p, 233) == 243);
    assert(power(p, 234) == 251);
    assert(power(p, 235) == 235);
    assert(power(p, 236) == 203);
    assert(power(p, 237) == 139);
    assert(power(p, 238) == 11);
    assert(power(p, 239) == 22);
    assert(power(p, 240) == 44);
    assert(power(p, 241) == 88);
    assert(power(p, 242) == 176);
    assert(power(p, 243) == 125);
    assert(power(p, 244) == 250);
    assert(power(p, 245) == 233);
    assert(power(p, 246) == 207);
    assert(power(p, 247) == 131);
    assert(power(p, 248) == 27);
    assert(power(p, 249) == 54);
    assert(power(p, 250) == 108);
    assert(power(p, 251) == 216);
    assert(power(p, 252) == 173);
    assert(power(p, 253) == 71);
    assert(power(p, 254) == 142);
    assert(power(p, 255) == 1);
}

/// Under the standard polynomial no power of `x` strictly between the zeroth
/// and the 255th is one.
proof fn lemma_standard_no_early_return(d: nat)
    requires
        0 < d < 255,
    ensures
        power(PRIMITIVE_POLYNOMIAL, d) != 1,
    decreases d,
{
    let p = PRIMITIVE_POLYNOMIAL;
    if power(p, d) == 1 {
        lemma_standard_orbit();
        lemma_power_period(p, d, 255);
        let r = 255nat % d;
        if r > 0 {
            lemma_standard_no_early_return(r);
        } else {
            lemma_divisors_of_group_order(d as u8);
            lemma_power_period(p, d, 15);
            lemma_power_period(p, d, 51);
            lemma_power_period(p, d, 85);
        }
    }
}

/// The standard polynomial is primitive.
pub proof fn lemma_standard_is_primitive()
    ensures
        is_primitive(PRIMITIVE_POLYNOMIAL),
{
    let p = PRIMITIVE_POLYNOMIAL;
    let s = power_seq(p);
    assert forall|i: int, j: int| 0 <= i < j < s.len() implies s[i] != s[j] by {
        if s[i] == s[j] {
            lemma_power_cancel(p, i as nat, j as nat);
            lemma_standard_no_early_return((j - i) as nat);
        }
    }
    assert forall|i: int| 0 <= i < s.len() implies s[i] != 0 by {
        lemma_power_nonzero(p, i as nat);
    }
    lemma_distinct_nonzero_covers(s);
}

} // verus!

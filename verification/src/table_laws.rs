use vstd::prelude::*;
use crate::lattice::{
    cell_corner, cell_mask, corner_below, crossing_offset, edge_hi, edge_lo, iso_index,
    lemma_scaled_ratio_bound, row_entry, tri_count, triple_ok, ISO_LEVEL,
};
use crate::util::CELL_UNITS;
use crate::marching_table::{EDGE_VERTEX_INDICES, TRIANGULATION};

verus! {

/// The triangulation table as a function of the corner mask: the form in
/// which reasoning about bits can read it.
#[verifier::inline]
pub open spec fn row_of(m: u64) -> u64 {
    if m == 0 {
        0xFFFF_FFFF_FFFF_FFFF
    } else if m == 1 {
        0x083F_FFFF_FFFF_FFFF
    } else if m == 2 {
        0x019F_FFFF_FFFF_FFFF
    } else if m == 3 {
        0x1839_81FF_FFFF_FFFF
    } else if m == 4 {
        0x12AF_FFFF_FFFF_FFFF
    } else if m == 5 {
        0x0831_2AFF_FFFF_FFFF
    } else if m == 6 {
        0x92A0_29FF_FFFF_FFFF
    } else if m == 7 {
        0x2832_A8A9_8FFF_FFFF
    } else if m == 8 {
        0x3B2F_FFFF_FFFF_FFFF
    } else if m == 9 {
        0x0B28_B0FF_FFFF_FFFF
    } else if m == 10 {
        0x1902_3BFF_FFFF_FFFF
    } else if m == 11 {
        0x1B21_9B98_BFFF_FFFF
    } else if m == 12 {
        0x3A1B_A3FF_FFFF_FFFF
    } else if m == 13 {
        0x0A10_8A8B_AFFF_FFFF
    } else if m == 14 {
        0x3903_B9BA_9FFF_FFFF
    } else if m == 15 {
        0x98AA_8BFF_FFFF_FFFF
    } else if m == 16 {
        0x478F_FFFF_FFFF_FFFF
    } else if m == 17 {
        0x4307_34FF_FFFF_FFFF
    } else if m == 18 {
        0x0198_47FF_FFFF_FFFF
    } else if m == 19 {
        0x4194_7173_1FFF_FFFF
    } else if m == 20 {
        0x12A8_47FF_FFFF_FFFF
    } else if m == 21 {
        0x3473_0412_AFFF_FFFF
    } else if m == 22 {
        0x92A9_0284_7FFF_FFFF
    } else if m == 23 {
        0x2A92_9727_3794_FFFF
    } else if m == 24 {
        0x8473_B2FF_FFFF_FFFF
    } else if m == 25 {
        0xB47B_2420_4FFF_FFFF
    } else if m == 26 {
        0x9018_4723_BFFF_FFFF
    } else if m == 27 {
        0x47B9_4B9B_2921_FFFF
    } else if m == 28 {
        0x3A13_BA78_4FFF_FFFF
    } else if m == 29 {
        0x1BA1_4B10_47B4_FFFF
    } else if m == 30 {
        0x4789_0B9B_AB03_FFFF
    } else if m == 31 {
        0x47B4_B99B_AFFF_FFFF
    } else if m == 32 {
        0x954F_FFFF_FFFF_FFFF
    } else if m == 33 {
        0x9540_83FF_FFFF_FFFF
    } else if m == 34 {
        0x0541_50FF_FFFF_FFFF
    } else if m == 35 {
        0x8548_3531_5FFF_FFFF
    } else if m == 36 {
        0x12A9_54FF_FFFF_FFFF
    } else if m == 37 {
        0x3081_2A49_5FFF_FFFF
    } else if m == 38 {
        0x52A5_4240_2FFF_FFFF
    } else if m == 39 {
        0x2A53_2535_4348_FFFF
    } else if m == 40 {
        0x9542_3BFF_FFFF_FFFF
    } else if m == 41 {
        0x0B20_8B49_5FFF_FFFF
    } else if m == 42 {
        0x0540_1523_BFFF_FFFF
    } else if m == 43 {
        0x2152_5828_B485_FFFF
    } else if m == 44 {
        0xA3BA_1395_4FFF_FFFF
    } else if m == 45 {
        0x4950_818A_18BA_FFFF
    } else if m == 46 {
        0x5405_0B5B_AB03_FFFF
    } else if m == 47 {
        0x5485_8AA8_BFFF_FFFF
    } else if m == 48 {
        0x9785_79FF_FFFF_FFFF
    } else if m == 49 {
        0x9309_5357_3FFF_FFFF
    } else if m == 50 {
        0x0780_1715_7FFF_FFFF
    } else if m == 51 {
        0x1533_57FF_FFFF_FFFF
    } else if m == 52 {
        0x9789_57A1_2FFF_FFFF
    } else if m == 53 {
        0xA129_5053_0573_FFFF
    } else if m == 54 {
        0x8028_2585_7A52_FFFF
    } else if m == 55 {
        0x2A52_5335_7FFF_FFFF
    } else if m == 56 {
        0x7957_893B_2FFF_FFFF
    } else if m == 57 {
        0x9579_7292_027B_FFFF
    } else if m == 58 {
        0x23B0_1817_8157_FFFF
    } else if m == 59 {
        0xB21B_1771_5FFF_FFFF
    } else if m == 60 {
        0x9588_57A1_3A3B_FFFF
    } else if m == 61 {
        0x5705_097B_010A_BA0F
    } else if m == 62 {
        0xBA0B_03A5_0807_570F
    } else if m == 63 {
        0xBA57_B5FF_FFFF_FFFF
    } else if m == 64 {
        0xA65F_FFFF_FFFF_FFFF
    } else if m == 65 {
        0x0835_A6FF_FFFF_FFFF
    } else if m == 66 {
        0x9015_A6FF_FFFF_FFFF
    } else if m == 67 {
        0x1831_985A_6FFF_FFFF
    } else if m == 68 {
        0x1652_61FF_FFFF_FFFF
    } else if m == 69 {
        0x1651_2630_8FFF_FFFF
    } else if m == 70 {
        0x9659_0602_6FFF_FFFF
    } else if m == 71 {
        0x5985_8252_6328_FFFF
    } else if m == 72 {
        0x23BA_65FF_FFFF_FFFF
    } else if m == 73 {
        0xB08B_20A6_5FFF_FFFF
    } else if m == 74 {
        0x0192_3B5A_6FFF_FFFF
    } else if m == 75 {
        0x5A61_929B_298B_FFFF
    } else if m == 76 {
        0x63B6_5351_3FFF_FFFF
    } else if m == 77 {
        0x08B0_B505_15B6_FFFF
    } else if m == 78 {
        0x3B60_3606_5059_FFFF
    } else if m == 79 {
        0x6596_9BB9_8FFF_FFFF
    } else if m == 80 {
        0x5A64_78FF_FFFF_FFFF
    } else if m == 81 {
        0x4304_7365_AFFF_FFFF
    } else if m == 82 {
        0x1905_A684_7FFF_FFFF
    } else if m == 83 {
        0xA651_9717_3794_FFFF
    } else if m == 84 {
        0x6126_5147_8FFF_FFFF
    } else if m == 85 {
        0x1255_2630_4347_FFFF
    } else if m == 86 {
        0x8479_0506_5026_FFFF
    } else if m == 87 {
        0x7397_9432_9596_269F
    } else if m == 88 {
        0x3B27_84A6_5FFF_FFFF
    } else if m == 89 {
        0x5A64_7242_027B_FFFF
    } else if m == 90 {
        0x0194_7823_B5A6_FFFF
    } else if m == 91 {
        0x9219_B294_B7B4_5A6F
    } else if m == 92 {
        0x8473_B535_15B6_FFFF
    } else if m == 93 {
        0x51B5_B610_B7B4_04BF
    } else if m == 94 {
        0x0590_6503_6B63_847F
    } else if m == 95 {
        0x6596_9B47_97B9_FFFF
    } else if m == 96 {
        0xA496_4AFF_FFFF_FFFF
    } else if m == 97 {
        0x4A64_9A08_3FFF_FFFF
    } else if m == 98 {
        0xA01A_6064_0FFF_FFFF
    } else if m == 99 {
        0x8318_1686_461A_FFFF
    } else if m == 100 {
        0x1491_2426_4FFF_FFFF
    } else if m == 101 {
        0x3081_2924_9264_FFFF
    } else if m == 102 {
        0x0244_26FF_FFFF_FFFF
    } else if m == 103 {
        0x8328_2442_6FFF_FFFF
    } else if m == 104 {
        0xA49A_64B2_3FFF_FFFF
    } else if m == 105 {
        0x0822_8B49_A4A6_FFFF
    } else if m == 106 {
        0x3B20_1606_461A_FFFF
    } else if m == 107 {
        0x6416_1A48_121B_8B1F
    } else if m == 108 {
        0x9649_3691_3B63_FFFF
    } else if m == 109 {
        0x8B18_10B6_1914_641F
    } else if m == 110 {
        0x3B63_6006_4FFF_FFFF
    } else if m == 111 {
        0x648B_68FF_FFFF_FFFF
    } else if m == 112 {
        0x7A67_8A89_AFFF_FFFF
    } else if m == 113 {
        0x0730_A709_A67A_FFFF
    } else if m == 114 {
        0xA671_A717_8180_FFFF
    } else if m == 115 {
        0xA67A_7117_3FFF_FFFF
    } else if m == 116 {
        0x1261_6818_9867_FFFF
    } else if m == 117 {
        0x2692_9167_9093_739F
    } else if m == 118 {
        0x7807_0660_2FFF_FFFF
    } else if m == 119 {
        0x7326_72FF_FFFF_FFFF
    } else if m == 120 {
        0x23BA_68A8_9867_FFFF
    } else if m == 121 {
        0x2072_7B09_767A_9A7F
    } else if m == 122 {
        0x1801_781A_767A_23BF
    } else if m == 123 {
        0xB21B_17A6_1671_FFFF
    } else if m == 124 {
        0x8968_6791_6B63_136F
    } else if m == 125 {
        0x091B_67FF_FFFF_FFFF
    } else if m == 126 {
        0x7807_063B_0B60_FFFF
    } else if m == 127 {
        0x7B6F_FFFF_FFFF_FFFF
    } else if m == 128 {
        0x76BF_FFFF_FFFF_FFFF
    } else if m == 129 {
        0x308B_76FF_FFFF_FFFF
    } else if m == 130 {
        0x019B_76FF_FFFF_FFFF
    } else if m == 131 {
        0x8198_31B7_6FFF_FFFF
    } else if m == 132 {
        0xA126_B7FF_FFFF_FFFF
    } else if m == 133 {
        0x12A3_086B_7FFF_FFFF
    } else if m == 134 {
        0x2902_A96B_7FFF_FFFF
    } else if m == 135 {
        0x6B72_A3A8_3A98_FFFF
    } else if m == 136 {
        0x7236_27FF_FFFF_FFFF
    } else if m == 137 {
        0x7087_6062_0FFF_FFFF
    } else if m == 138 {
        0x2762_3701_9FFF_FFFF
    } else if m == 139 {
        0x1621_8619_8876_FFFF
    } else if m == 140 {
        0xA76A_1713_7FFF_FFFF
    } else if m == 141 {
        0xA761_7A18_7108_FFFF
    } else if m == 142 {
        0x0370_7A0A_96A7_FFFF
    } else if m == 143 {
        0x76A7_A88A_9FFF_FFFF
    } else if m == 144 {
        0x684B_86FF_FFFF_FFFF
    } else if m == 145 {
        0x36B3_0604_6FFF_FFFF
    } else if m == 146 {
        0x86B8_4690_1FFF_FFFF
    } else if m == 147 {
        0x9469_6393_1B36_FFFF
    } else if m == 148 {
        0x6846_B82A_1FFF_FFFF
    } else if m == 149 {
        0x12A3_0B06_B046_FFFF
    } else if m == 150 {
        0x4B84_6B02_92A9_FFFF
    } else if m == 151 {
        0xA93A_3294_3B36_463F
    } else if m == 152 {
        0x8238_4246_2FFF_FFFF
    } else if m == 153 {
        0x0424_62FF_FFFF_FFFF
    } else if m == 154 {
        0x1902_3424_6438_FFFF
    } else if m == 155 {
        0x1941_4224_6FFF_FFFF
    } else if m == 156 {
        0x8138_6184_66A1_FFFF
    } else if m == 157 {
        0xA10A_0660_4FFF_FFFF
    } else if m == 158 {
        0x4634_386A_3039_A93F
    } else if m == 159 {
        0xA946_A4FF_FFFF_FFFF
    } else if m == 160 {
        0x4957_6BFF_FFFF_FFFF
    } else if m == 161 {
        0x0834_95B7_6FFF_FFFF
    } else if m == 162 {
        0x5015_4076_BFFF_FFFF
    } else if m == 163 {
        0xB768_3435_4315_FFFF
    } else if m == 164 {
        0x954A_1276_BFFF_FFFF
    } else if m == 165 {
        0x6B71_2A08_3495_FFFF
    } else if m == 166 {
        0x76B5_4A42_A402_FFFF
    } else if m == 167 {
        0x3483_5432_5A52_B76F
    } else if m == 168 {
        0x7237_6254_9FFF_FFFF
    } else if m == 169 {
        0x9540_8606_2687_FFFF
    } else if m == 170 {
        0x3623_7615_0540_FFFF
    } else if m == 171 {
        0x6286_8721_8485_158F
    } else if m == 172 {
        0x954A_1617_6137_FFFF
    } else if m == 173 {
        0x16A1_7610_7870_954F
    } else if m == 174 {
        0x40A4_A503_A6A7_37AF
    } else if m == 175 {
        0x76A7_A854_A48A_FFFF
    } else if m == 176 {
        0x6956_B9B8_9FFF_FFFF
    } else if m == 177 {
        0x36B0_6305_6095_FFFF
    } else if m == 178 {
        0x0B80_5B01_556B_FFFF
    } else if m == 179 {
        0x6B36_3553_1FFF_FFFF
    } else if m == 180 {
        0x12A9_5B9B_8B56_FFFF
    } else if m == 181 {
        0x0B30_6B09_6569_12AF
    } else if m == 182 {
        0xB85B_5680_5A52_025F
    } else if m == 183 {
        0x6B36_352A_3A53_FFFF
    } else if m == 184 {
        0x5895_2856_2382_FFFF
    } else if m == 185 {
        0x9569_6006_2FFF_FFFF
    } else if m == 186 {
        0x1581_8056_8382_628F
    } else if m == 187 {
        0x1562_16FF_FFFF_FFFF
    } else if m == 188 {
        0x1361_6A38_6569_896F
    } else if m == 189 {
        0xA10A_0695_0560_FFFF
    } else if m == 190 {
        0x0385_6AFF_FFFF_FFFF
    } else if m == 191 {
        0xA56F_FFFF_FFFF_FFFF
    } else if m == 192 {
        0xB5A7_5BFF_FFFF_FFFF
    } else if m == 193 {
        0xB5AB_7583_0FFF_FFFF
    } else if m == 194 {
        0x5B75_AB19_0FFF_FFFF
    } else if m == 195 {
        0xA75A_B798_1831_FFFF
    } else if m == 196 {
        0xB12B_7175_1FFF_FFFF
    } else if m == 197 {
        0x0831_2717_572B_FFFF
    } else if m == 198 {
        0x9759_2790_22B7_FFFF
    } else if m == 199 {
        0x7527_2B59_2328_982F
    } else if m == 200 {
        0x25A2_3537_5FFF_FFFF
    } else if m == 201 {
        0x8208_5287_5A25_FFFF
    } else if m == 202 {
        0x9015_A353_73A2_FFFF
    } else if m == 203 {
        0x9829_2187_2A25_752F
    } else if m == 204 {
        0x1353_75FF_FFFF_FFFF
    } else if m == 205 {
        0x0870_7117_5FFF_FFFF
    } else if m == 206 {
        0x9039_3553_7FFF_FFFF
    } else if m == 207 {
        0x9875_97FF_FFFF_FFFF
    } else if m == 208 {
        0x5845_A8AB_8FFF_FFFF
    } else if m == 209 {
        0x5045_B05A_BB30_FFFF
    } else if m == 210 {
        0x0198_4A8A_BA45_FFFF
    } else if m == 211 {
        0xAB4A_45B3_4941_314F
    } else if m == 212 {
        0x2512_852B_8458_FFFF
    } else if m == 213 {
        0x04B0_B345_B2B1_51BF
    } else if m == 214 {
        0x0250_592B_5458_B85F
    } else if m == 215 {
        0x9452_B3FF_FFFF_FFFF
    } else if m == 216 {
        0x25A3_5234_5384_FFFF
    } else if m == 217 {
        0x5A25_2442_0FFF_FFFF
    } else if m == 218 {
        0x3A23_5A38_5458_019F
    } else if m == 219 {
        0x5A25_2419_2942_FFFF
    } else if m == 220 {
        0x8458_5335_1FFF_FFFF
    } else if m == 221 {
        0x0451_05FF_FFFF_FFFF
    } else if m == 222 {
        0x8458_5390_5035_FFFF
    } else if m == 223 {
        0x945F_FFFF_FFFF_FFFF
    } else if m == 224 {
        0x4B74_9B9A_BFFF_FFFF
    } else if m == 225 {
        0x0834_979B_79AB_FFFF
    } else if m == 226 {
        0x1AB1_B414_074B_FFFF
    } else if m == 227 {
        0x3143_481A_474B_AB4F
    } else if m == 228 {
        0x4B79_B492_B912_FFFF
    } else if m == 229 {
        0x9749_B791_B2B1_083F
    } else if m == 230 {
        0xB74B_4224_0FFF_FFFF
    } else if m == 231 {
        0xB74B_4283_4324_FFFF
    } else if m == 232 {
        0x29A2_7923_7749_FFFF
    } else if m == 233 {
        0x9A79_74A2_7870_207F
    } else if m == 234 {
        0x37A3_A274_A1A0_40AF
    } else if m == 235 {
        0x1A28_74FF_FFFF_FFFF
    } else if m == 236 {
        0x4914_1771_3FFF_FFFF
    } else if m == 237 {
        0x4914_1708_1871_FFFF
    } else if m == 238 {
        0x4037_43FF_FFFF_FFFF
    } else if m == 239 {
        0x487F_FFFF_FFFF_FFFF
    } else if m == 240 {
        0x9A8A_B8FF_FFFF_FFFF
    } else if m == 241 {
        0x3093_9BB9_AFFF_FFFF
    } else if m == 242 {
        0x01A0_A88A_BFFF_FFFF
    } else if m == 243 {
        0x31AB_3AFF_FFFF_FFFF
    } else if m == 244 {
        0x12B1_B99B_8FFF_FFFF
    } else if m == 245 {
        0x3093_9B12_92B9_FFFF
    } else if m == 246 {
        0x02B8_0BFF_FFFF_FFFF
    } else if m == 247 {
        0x32BF_FFFF_FFFF_FFFF
    } else if m == 248 {
        0x2382_8AA8_9FFF_FFFF
    } else if m == 249 {
        0x9A20_92FF_FFFF_FFFF
    } else if m == 250 {
        0x2382_8A01_81A8_FFFF
    } else if m == 251 {
        0x1A2F_FFFF_FFFF_FFFF
    } else if m == 252 {
        0x1389_18FF_FFFF_FFFF
    } else if m == 253 {
        0x091F_FFFF_FFFF_FFFF
    } else if m == 254 {
        0x038F_FFFF_FFFF_FFFF
    } else {
        0xFFFF_FFFF_FFFF_FFFF
    }
}

/// Digit `k` of a row, counted from the left.
#[verifier::inline]
pub open spec fn digit(row: u64, k: u64) -> u64 {
    (row >> ((60 - 4 * k) as u64)) & 0xF
}

/// The corner at the first end of cube edge `e`: the digits of the constant
/// are the first ends of the edges, edge 0 in the lowest digit.
#[verifier::inline]
pub open spec fn first_end(e: u64) -> u64 {
    (0x3210_7654_3210u64 >> (4 * e)) & 15
}

/// The corner at the second end of cube edge `e`.
#[verifier::inline]
pub open spec fn second_end(e: u64) -> u64 {
    (0x7654_4765_0321u64 >> (4 * e)) & 15
}

/// Whether the two ends of cube edge `e` lie on different sides of the
/// surface, by the bits of the corner mask.
#[verifier::inline]
pub open spec fn crossed(m: u64, e: u64) -> bool {
    ((m >> first_end(e)) & 1) != ((m >> second_end(e)) & 1)
}

/// Whether a row lists cube edge `e` among its fifteen digits.
#[verifier::inline]
pub open spec fn lists(row: u64, e: u64) -> bool {
    digit(row, 0) == e || digit(row, 1) == e || digit(row, 2) == e || digit(row, 3) == e || digit(
        row,
        4,
    ) == e || digit(row, 5) == e || digit(row, 6) == e || digit(row, 7) == e || digit(row, 8) == e
        || digit(row, 9) == e || digit(row, 10) == e || digit(row, 11) == e || digit(row, 12) == e
        || digit(row, 13) == e || digit(row, 14) == e
}

/// Whether `row` is the row of mask `m`.
#[verifier::opaque]
pub open spec fn is_row_of(m: u64, row: u64) -> bool {
    row == row_of(m)
}

/// What holds of the row of mask `m` at digit `k`: the digit is the end mark
/// or a cube edge that the surface crosses; a digit after an end mark is an
/// end mark, and the digits of a triangle are edges or end marks together.
#[verifier::inline]
pub open spec fn digit_is_sound(row: u64, m: u64, k: u64) -> bool {
    &&& digit(row, k) == 15 || (digit(row, k) < 12 && crossed(m, digit(row, k)))
    &&& k > 0 && digit(row, (k - 1) as u64) == 15 ==> digit(row, k) == 15
    &&& k % 3 != 0 && digit(row, k) == 15 ==> digit(row, (k - 1) as u64) == 15
}

/// What holds of the row of mask `m` for cube edge `e`: if the surface
/// crosses the edge, the row lists it.
#[verifier::inline]
pub open spec fn edge_is_listed(row: u64, m: u64, e: u64) -> bool {
    crossed(m, e) ==> lists(row, e)
}

/// Every digit of every row of the table is sound.
pub proof fn lemma_digits_are_sound(m: u64, row: u64, k: u64)
    requires
        m < 256,
        k < 15,
        is_row_of(m, row),
    ensures
        digit_is_sound(row, m, k),
{
    reveal(is_row_of);
    if 0 <= m < 16 {
        assert(digit_is_sound(row, m, k)) by (bit_vector)
            requires
                0 <= m < 16,
                k < 15,
                row == row_of(m),
        ;
    }
    if 16 <= m < 32 {
        assert(digit_is_sound(row, m, k)) by (bit_vector)
            requires
                16 <= m < 32,
                k < 15,
                row == row_of(m),
        ;
    }
    if 32 <= m < 48 {
        assert(digit_is_sound(row, m, k)) by (bit_vector)
            requires
                32 <= m < 48,
                k < 15,
                row == row_of(m),
        ;
    }
    if 48 <= m < 64 {
        assert(digit_is_sound(row, m, k)) by (bit_vector)
            requires
                48 <= m < 64,
                k < 15,
                row == row_of(m),
        ;
    }
    if 64 <= m < 80 {
        assert(digit_is_sound(row, m, k)) by (bit_vector)
            requires
                64 <= m < 80,
                k < 15,
                row == row_of(m),
        ;
    }
    if 80 <= m < 96 {
        assert(digit_is_sound(row, m, k)) by (bit_vector)
            requires
                80 <= m < 96,
                k < 15,
                row == row_of(m),
        ;
    }
    if 96 <= m < 112 {
        assert(digit_is_sound(row, m, k)) by (bit_vector)
            requires
                96 <= m < 112,
                k < 15,
                row == row_of(m),
        ;
    }
    if 112 <= m < 128 {
        assert(digit_is_sound(row, m, k)) by (bit_vector)
            requires
                112 <= m < 128,
                k < 15,
                row == row_of(m),
        ;
    }
    if 128 <= m < 144 {
        assert(digit_is_sound(row, m, k)) by (bit_vector)
            requires
                128 <= m < 144,
                k < 15,
                row == row_of(m),
        ;
    }
    if 144 <= m < 160 {
        assert(digit_is_sound(row, m, k)) by (bit_vector)
            requires
                144 <= m < 160,
                k < 15,
                row == row_of(m),
        ;
    }
    if 160 <= m < 176 {
        assert(digit_is_sound(row, m, k)) by (bit_vector)
            requires
                160 <= m < 176,
                k < 15,
                row == row_of(m),
        ;
    }
    if 176 <= m < 192 {
        assert(digit_is_sound(row, m, k)) by (bit_vector)
            requires
                176 <= m < 192,
                k < 15,
                row == row_of(m),
        ;
    }
    if 192 <= m < 208 {
        assert(digit_is_sound(row, m, k)) by (bit_vector)
            requires
                192 <= m < 208,
                k < 15,
                row == row_of(m),
        ;
    }
    if 208 <= m < 224 {
        assert(digit_is_sound(row, m, k)) by (bit_vector)
            requires
                208 <= m < 224,
                k < 15,
                row == row_of(m),
        ;
    }
    if 224 <= m < 240 {
        assert(digit_is_sound(row, m, k)) by (bit_vector)
            requires
                224 <= m < 240,
                k < 15,
                row == row_of(m),
        ;
    }
    if 240 <= m < 256 {
        assert(digit_is_sound(row, m, k)) by (bit_vector)
            requires
                240 <= m < 256,
                k < 15,
                row == row_of(m),
        ;
    }
}

/// Every row of the table lists every cube edge that the surface crosses.
pub proof fn lemma_edges_are_listed(m: u64, row: u64, e: u64)
    requires
        m < 256,
        e < 12,
        is_row_of(m, row),
    ensures
        edge_is_listed(row, m, e),
{
    reveal(is_row_of);
    if 0 <= m < 16 {
        assert(edge_is_listed(row, m, e)) by (bit_vector)
            requires
                0 <= m < 16,
                e < 12,
                row == row_of(m),
        ;
    }
    if 16 <= m < 32 {
        assert(edge_is_listed(row, m, e)) by (bit_vector)
            requires
                16 <= m < 32,
                e < 12,
                row == row_of(m),
        ;
    }
    if 32 <= m < 48 {
        assert(edge_is_listed(row, m, e)) by (bit_vector)
            requires
                32 <= m < 48,
                e < 12,
                row == row_of(m),
        ;
    }
    if 48 <= m < 64 {
        assert(edge_is_listed(row, m, e)) by (bit_vector)
            requires
                48 <= m < 64,
                e < 12,
                row == row_of(m),
        ;
    }
    if 64 <= m < 80 {
        assert(edge_is_listed(row, m, e)) by (bit_vector)
            requires
                64 <= m < 80,
                e < 12,
                row == row_of(m),
        ;
    }
    if 80 <= m < 96 {
        assert(edge_is_listed(row, m, e)) by (bit_vector)
            requires
                80 <= m < 96,
                e < 12,
                row == row_of(m),
        ;
    }
    if 96 <= m < 112 {
        assert(edge_is_listed(row, m, e)) by (bit_vector)
            requires
                96 <= m < 112,
                e < 12,
                row == row_of(m),
        ;
    }
    if 112 <= m < 128 {
        assert(edge_is_listed(row, m, e)) by (bit_vector)
            requires
                112 <= m < 128,
                e < 12,
                row == row_of(m),
        ;
    }
    if 128 <= m < 144 {
        assert(edge_is_listed(row, m, e)) by (bit_vector)
            requires
                128 <= m < 144,
                e < 12,
                row == row_of(m),
        ;
    }
    if 144 <= m < 160 {
        assert(edge_is_listed(row, m, e)) by (bit_vector)
            requires
                144 <= m < 160,
                e < 12,
                row == row_of(m),
        ;
    }
    if 160 <= m < 176 {
        assert(edge_is_listed(row, m, e)) by (bit_vector)
            requires
                160 <= m < 176,
                e < 12,
                row == row_of(m),
        ;
    }
    if 176 <= m < 192 {
        assert(edge_is_listed(row, m, e)) by (bit_vector)
            requires
                176 <= m < 192,
                e < 12,
                row == row_of(m),
        ;
    }
    if 192 <= m < 208 {
        assert(edge_is_listed(row, m, e)) by (bit_vector)
            requires
                192 <= m < 208,
                e < 12,
                row == row_of(m),
        ;
    }
    if 208 <= m < 224 {
        assert(edge_is_listed(row, m, e)) by (bit_vector)
            requires
                208 <= m < 224,
                e < 12,
                row == row_of(m),
        ;
    }
    if 224 <= m < 240 {
        assert(edge_is_listed(row, m, e)) by (bit_vector)
            requires
                224 <= m < 240,
                e < 12,
                row == row_of(m),
        ;
    }
    if 240 <= m < 256 {
        assert(edge_is_listed(row, m, e)) by (bit_vector)
            requires
                240 <= m < 256,
                e < 12,
                row == row_of(m),
        ;
    }
}

/// The function `row_of` is the table.
pub proof fn lemma_row_of_is_the_table(m: u64)
    requires
        m < 256,
    ensures
        is_row_of(m, TRIANGULATION[m as int]),
{
    reveal(is_row_of);
}

/// The bits of a corner mask are the sides of the corners.
proof fn lemma_mask_bits(m: u64, b: Seq<u64>, c: u64)
    requires
        b.len() == 8,
        forall|i: int| 0 <= i < 8 ==> #[trigger] b[i] <= 1,
        m == b[0] + 2 * b[1] + 4 * b[2] + 8 * b[3] + 16 * b[4] + 32 * b[5] + 64 * b[6] + 128
            * b[7],
        c < 8,
    ensures
        (m >> c) & 1 == b[c as int],
        m < 256,
{
    let (b0, b1, b2, b3, b4, b5, b6, b7) = (b[0], b[1], b[2], b[3], b[4], b[5], b[6], b[7]);
    assert(b0 <= 1 && b1 <= 1 && b2 <= 1 && b3 <= 1 && b4 <= 1 && b5 <= 1 && b6 <= 1 && b7 <= 1);
    let pick = if c == 0 {
        b0
    } else if c == 1 {
        b1
    } else if c == 2 {
        b2
    } else if c == 3 {
        b3
    } else if c == 4 {
        b4
    } else if c == 5 {
        b5
    } else if c == 6 {
        b6
    } else {
        b7
    };
    assert((m >> c) & 1 == pick) by (bit_vector)
        requires
            b0 <= 1 && b1 <= 1 && b2 <= 1 && b3 <= 1 && b4 <= 1 && b5 <= 1 && b6 <= 1 && b7 <= 1,
            m == b0 + 2 * b1 + 4 * b2 + 8 * b3 + 16 * b4 + 32 * b5 + 64 * b6 + 128 * b7,
            c < 8,
            pick == (if c == 0 {
                b0
            } else if c == 1 {
                b1
            } else if c == 2 {
                b2
            } else if c == 3 {
                b3
            } else if c == 4 {
                b4
            } else if c == 5 {
                b5
            } else if c == 6 {
                b6
            } else {
                b7
            }),
    ;
}

/// The packed ends of the cube edges are those of the edge table.
proof fn lemma_ends(e: u64)
    requires
        e < 12,
    ensures
        first_end(e) == EDGE_VERTEX_INDICES[e as int][0],
        second_end(e) == EDGE_VERTEX_INDICES[e as int][1],
        first_end(e) < 8,
        second_end(e) < 8,
{
    assert(first_end(e) == (if e == 0 || e == 8 {
        0u64
    } else if e == 1 || e == 9 {
        1
    } else if e == 2 || e == 10 {
        2
    } else if e == 3 || e == 11 {
        3
    } else if e == 4 {
        4
    } else if e == 5 {
        5
    } else if e == 6 {
        6
    } else {
        7
    })) by (bit_vector)
        requires
            e < 12,
    ;
    assert(second_end(e) == (if e == 3 {
        0u64
    } else if e == 0 {
        1
    } else if e == 1 {
        2
    } else if e == 2 {
        3
    } else if e == 7 || e == 8 {
        4
    } else if e == 4 || e == 9 {
        5
    } else if e == 5 || e == 10 {
        6
    } else {
        7
    })) by (bit_vector)
        requires
            e < 12,
    ;
}

/// The sides of the eight corners of a cell, as the bits of its mask.
pub open spec fn corner_sides(isos: Seq<i32>, x: int, y: int, z: int) -> Seq<u64> {
    Seq::new(8, |i: int| corner_below(isos, x, y, z, i) as u64)
}

/// Whether the surface crosses cube edge `e` of the cell at `(x, y, z)`: the
/// densities at the two ends of the edge lie on different sides of the
/// surface level.
pub open spec fn edge_crossed(isos: Seq<i32>, x: int, y: int, z: int, e: int) -> bool {
    corner_below(isos, x, y, z, EDGE_VERTEX_INDICES[e][0] as int) != corner_below(
        isos,
        x,
        y,
        z,
        EDGE_VERTEX_INDICES[e][1] as int,
    )
}

/// The bits of a cell's mask say which cube edges the surface crosses.
proof fn lemma_crossed_by_mask(isos: Seq<i32>, x: int, y: int, z: int, e: int)
    requires
        0 <= e < 12,
    ensures
        0 <= cell_mask(isos, x, y, z) < 256,
        crossed(cell_mask(isos, x, y, z) as u64, e as u64) == edge_crossed(isos, x, y, z, e),
{
    let m = cell_mask(isos, x, y, z) as u64;
    let b = corner_sides(isos, x, y, z);
    lemma_ends(e as u64);
    lemma_mask_bits(m, b, first_end(e as u64));
    lemma_mask_bits(m, b, second_end(e as u64));
}

/// The digits of a row fall into two parts: those of its triangles, which
/// name cube edges, and the end marks after them.
proof fn lemma_row_structure(m: u64, row: u64, k: int)
    requires
        m < 256,
        is_row_of(m, row),
        0 <= k < 15,
    ensures
        k < 3 * tri_count(row) ==> 0 <= row_entry(row, k) < 12,
        k >= 3 * tri_count(row) ==> row_entry(row, k) == 15,
{
    lemma_digits_are_sound(m, row, 0);
    lemma_digits_are_sound(m, row, 1);
    lemma_digits_are_sound(m, row, 2);
    lemma_digits_are_sound(m, row, 3);
    lemma_digits_are_sound(m, row, 4);
    lemma_digits_are_sound(m, row, 5);
    lemma_digits_are_sound(m, row, 6);
    lemma_digits_are_sound(m, row, 7);
    lemma_digits_are_sound(m, row, 8);
    lemma_digits_are_sound(m, row, 9);
    lemma_digits_are_sound(m, row, 10);
    lemma_digits_are_sound(m, row, 11);
    lemma_digits_are_sound(m, row, 12);
    lemma_digits_are_sound(m, row, 13);
    lemma_digits_are_sound(m, row, 14);
    assert(forall|j: int| 0 <= j < 15 ==> #[trigger] row_entry(row, j) == digit(row, j as u64));
    assert(triple_ok(row, 0) <==> row_entry(row, 0) != 15);
    assert(triple_ok(row, 1) <==> row_entry(row, 3) != 15);
    assert(triple_ok(row, 2) <==> row_entry(row, 6) != 15);
    assert(triple_ok(row, 3) <==> row_entry(row, 9) != 15);
    assert(triple_ok(row, 4) <==> row_entry(row, 12) != 15);
}

/// What the table does for every cell: the cuts that the cell lists are cuts
/// of cube edges that the surface crosses, and every cube edge that the
/// surface crosses is among them.
pub proof fn lemma_cell_lists_the_crossed_edges(isos: Seq<i32>, x: int, y: int, z: int)
    ensures
        0 <= cell_mask(isos, x, y, z) < 256,
        forall|k: int|
            0 <= k < 3 * tri_count(TRIANGULATION[cell_mask(isos, x, y, z)]) ==> {
                let e = #[trigger] row_entry(TRIANGULATION[cell_mask(isos, x, y, z)], k);
                0 <= e < 12 && edge_crossed(isos, x, y, z, e)
            },
        forall|e: int|
            0 <= e < 12 && #[trigger] edge_crossed(isos, x, y, z, e) ==> exists|k: int|
                0 <= k < 3 * tri_count(TRIANGULATION[cell_mask(isos, x, y, z)]) && row_entry(
                    TRIANGULATION[cell_mask(isos, x, y, z)],
                    k,
                ) == e,
{
    lemma_crossed_by_mask(isos, x, y, z, 0);
    let mask = cell_mask(isos, x, y, z);
    let m = mask as u64;
    let row = TRIANGULATION[mask];
    lemma_row_of_is_the_table(m);
    assert forall|k: int| 0 <= k < 3 * tri_count(row) implies {
        let e = #[trigger] row_entry(row, k);
        0 <= e < 12 && edge_crossed(isos, x, y, z, e)
    } by {
        lemma_row_structure(m, row, k);
        let e = row_entry(row, k);
        lemma_digits_are_sound(m, row, k as u64);
        lemma_crossed_by_mask(isos, x, y, z, e);
    }
    assert forall|e: int| 0 <= e < 12 && #[trigger] edge_crossed(isos, x, y, z, e) implies exists|
        k: int,
    |
        0 <= k < 3 * tri_count(row) && row_entry(row, k) == e by {
        lemma_crossed_by_mask(isos, x, y, z, e);
        lemma_edges_are_listed(m, row, e as u64);
        assert(lists(row, e as u64));
        assert(row_entry(row, 0) == e || row_entry(row, 1) == e || row_entry(row, 2) == e
            || row_entry(row, 3) == e || row_entry(row, 4) == e || row_entry(row, 5) == e
            || row_entry(row, 6) == e || row_entry(row, 7) == e || row_entry(row, 8) == e
            || row_entry(row, 9) == e || row_entry(row, 10) == e || row_entry(row, 11) == e
            || row_entry(row, 12) == e || row_entry(row, 13) == e || row_entry(row, 14) == e);
        let k = choose|k: int| 0 <= k < 15 && #[trigger] row_entry(row, k) == e;
        lemma_row_structure(m, row, k);
    }
}

/// Whether the densities `da` and `db` lie on different sides of the surface
/// level.
pub open spec fn sides_differ(da: int, db: int) -> bool {
    (da < ISO_LEVEL) != (db < ISO_LEVEL)
}

/// The magnitude of a number.
pub open spec fn abs(a: int) -> int {
    if a < 0 {
        -a
    } else {
        a
    }
}

/// Between densities on different sides of the surface level the crossing
/// is plain linear interpolation: it divides the edge as the level divides
/// the two densities, rounded down. No guard against equal densities and no
/// clamp comes into play.
pub proof fn lemma_crossing_is_interpolation(da: int, db: int)
    requires
        sides_differ(da, db),
    ensures
        da != db,
        crossing_offset(da, db) == CELL_UNITS * abs(ISO_LEVEL - da) / abs(db - da),
        0 <= crossing_offset(da, db) <= CELL_UNITS,
{
    let num = abs(ISO_LEVEL - da);
    let den = abs(db - da);
    if num == 0 {
        assert(CELL_UNITS * num == 0);
    } else if num == den {
        vstd::arithmetic::div_mod::lemma_div_multiples_vanish(CELL_UNITS as int, den);
        assert(CELL_UNITS * num == den * CELL_UNITS) by (nonlinear_arith)
            requires
                num == den,
        ;
    } else {
        lemma_scaled_ratio_bound(CELL_UNITS as int, num, den);
    }
}

/// For every cut that a cell lists, the densities at the two ends of the cut
/// edge lie on different sides of the surface level, so that the cut is
/// where linear interpolation between them meets the level.
pub proof fn lemma_listed_cut_is_a_crossing(isos: Seq<i32>, x: int, y: int, z: int, k: int)
    requires
        0 <= k < 3 * tri_count(TRIANGULATION[cell_mask(isos, x, y, z)]),
    ensures
        ({
            let e = row_entry(TRIANGULATION[cell_mask(isos, x, y, z)], k);
            let lo = edge_lo(x, y, z, e);
            let hi = edge_hi(x, y, z, e);
            let da = isos[iso_index(lo.0, lo.1, lo.2)] as int;
            let db = isos[iso_index(hi.0, hi.1, hi.2)] as int;
            &&& 0 <= e < 12
            &&& sides_differ(da, db)
            &&& crossing_offset(da, db) == CELL_UNITS * abs(ISO_LEVEL - da) / abs(db - da)
        }),
{
    lemma_cell_lists_the_crossed_edges(isos, x, y, z);
    let row = TRIANGULATION[cell_mask(isos, x, y, z)];
    let e = row_entry(row, k);
    assert(0 <= e < 12 && edge_crossed(isos, x, y, z, e));
    let a = cell_corner(x, y, z, EDGE_VERTEX_INDICES[e][0] as int);
    let b = cell_corner(x, y, z, EDGE_VERTEX_INDICES[e][1] as int);
    let lo = edge_lo(x, y, z, e);
    let hi = edge_hi(x, y, z, e);
    assert((lo == a && hi == b) || (lo == b && hi == a));
    lemma_crossing_is_interpolation(
        isos[iso_index(lo.0, lo.1, lo.2)] as int,
        isos[iso_index(hi.0, hi.1, hi.2)] as int,
    );
}

} // verus!

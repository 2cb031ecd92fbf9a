use vstd::arithmetic::power2::pow2;
use vstd::prelude::*;

verus! {

// Bit positions of the eight compass neighbours in a mask:
//
// TL TM TR
// ML ** MR
// BL BM BR
pub const TL: u8 = 0b0000_0001;
pub const TM: u8 = 0b0000_0010;
pub const TR: u8 = 0b0000_0100;
pub const ML: u8 = 0b0000_1000;
pub const MR: u8 = 0b0001_0000;
pub const BL: u8 = 0b0010_0000;
pub const BM: u8 = 0b0100_0000;
pub const BR: u8 = 0b1000_0000;

/// Which of the eight neighbours of a cell are occupied, one bit each.
#[derive(Clone, Copy, Debug, PartialEq, Eq, Structural)]
pub struct Surrounds {
    pub bits: u8,
}

/// Number of set bits in `m`.
pub open spec fn bit_count(m: nat) -> nat
    decreases m,
{
    if m == 0 {
        0
    } else {
        (m % 2) + bit_count(m / 2)
    }
}

/// A value below `2^k` has at most `k` set bits.
pub proof fn lemma_bit_count_bound(m: nat, k: nat)
    requires
        m < pow2(k),
    ensures
        bit_count(m) <= k,
    decreases k,
{
    if k > 0 && m > 0 {
        assert(pow2(k) == 2 * pow2((k - 1) as nat)) by {
            vstd::arithmetic::power2::lemma_pow2_unfold(k);
        }
        lemma_bit_count_bound(m / 2, (k - 1) as nat);
    } else if k == 0 {
        vstd::arithmetic::power2::lemma2_to64();
    }
}

/// A mask has at most eight occupied neighbours.
pub proof fn lemma_count_at_most_eight(m: u8)
    ensures
        bit_count(m as nat) <= 8,
{
    vstd::arithmetic::power2::lemma2_to64();
    lemma_bit_count_bound(m as nat, 8);
}

/// The atlas offset (column, row) drawn for each neighbour configuration.
pub open spec fn offset_of_mask(m: u8) -> (u32, u32) {
    match m {
        0 => (6, 0),
        1 => (6, 0),
        2 => (4, 2),
        3 => (4, 2),
        4 => (6, 0),
        5 => (6, 0),
        6 => (4, 2),
        7 => (4, 2),
        8 => (5, 1),
        9 => (5, 1),
        10 => (15, 1),
        11 => (2, 2),
        12 => (5, 1),
        13 => (5, 1),
        14 => (15, 1),
        15 => (2, 2),
        16 => (3, 1),
        17 => (3, 1),
        18 => (14, 1),
        19 => (14, 1),
        20 => (3, 1),
        21 => (0, 2),
        22 => (0, 2),
        23 => (0, 2),
        24 => (6, 2),
        25 => (6, 2),
        26 => (21, 1),
        27 => (19, 1),
        28 => (6, 2),
        29 => (6, 2),
        30 => (17, 1),
        31 => (1, 2),
        32 => (6, 0),
        33 => (6, 0),
        34 => (4, 2),
        35 => (4, 2),
        36 => (6, 0),
        37 => (6, 0),
        38 => (4, 2),
        39 => (4, 2),
        40 => (5, 1),
        41 => (5, 1),
        42 => (15, 1),
        43 => (2, 2),
        44 => (5, 1),
        45 => (5, 1),
        46 => (15, 1),
        47 => (2, 2),
        48 => (3, 1),
        49 => (3, 1),
        50 => (14, 1),
        51 => (14, 1),
        52 => (3, 1),
        53 => (3, 1),
        54 => (14, 1),
        55 => (0, 2),
        56 => (6, 2),
        57 => (6, 2),
        58 => (21, 1),
        59 => (19, 1),
        60 => (6, 2),
        61 => (6, 2),
        62 => (17, 1),
        63 => (1, 2),
        64 => (4, 0),
        65 => (4, 0),
        66 => (6, 1),
        67 => (6, 1),
        68 => (4, 0),
        69 => (4, 0),
        70 => (6, 1),
        71 => (6, 1),
        72 => (15, 0),
        73 => (15, 0),
        74 => (21, 0),
        75 => (17, 0),
        76 => (15, 0),
        77 => (15, 0),
        78 => (21, 0),
        79 => (17, 0),
        80 => (14, 0),
        81 => (14, 0),
        82 => (20, 1),
        83 => (20, 1),
        84 => (14, 0),
        85 => (14, 0),
        86 => (18, 1),
        87 => (18, 1),
        88 => (20, 0),
        89 => (20, 0),
        90 => (4, 1),
        91 => (10, 1),
        92 => (20, 0),
        93 => (20, 0),
        94 => (10, 1),
        95 => (11, 0),
        96 => (4, 0),
        97 => (4, 0),
        98 => (6, 1),
        99 => (6, 1),
        100 => (4, 0),
        101 => (4, 0),
        102 => (6, 1),
        103 => (6, 1),
        104 => (2, 0),
        105 => (2, 0),
        106 => (19, 0),
        107 => (2, 1),
        108 => (2, 0),
        109 => (2, 0),
        110 => (19, 0),
        111 => (2, 1),
        112 => (14, 0),
        113 => (14, 0),
        114 => (20, 1),
        115 => (20, 1),
        116 => (14, 0),
        117 => (14, 0),
        118 => (18, 1),
        119 => (18, 1),
        120 => (16, 0),
        121 => (16, 0),
        122 => (10, 0),
        123 => (13, 1),
        124 => (16, 0),
        125 => (16, 0),
        126 => (12, 1),
        127 => (7, 0),
        128 => (6, 0),
        129 => (6, 0),
        130 => (4, 2),
        131 => (4, 2),
        132 => (6, 0),
        133 => (6, 0),
        134 => (4, 2),
        135 => (4, 2),
        136 => (5, 1),
        137 => (5, 1),
        138 => (15, 1),
        139 => (2, 2),
        140 => (5, 1),
        141 => (5, 1),
        142 => (15, 1),
        143 => (2, 2),
        144 => (3, 1),
        145 => (3, 1),
        146 => (14, 1),
        147 => (14, 1),
        148 => (3, 1),
        149 => (3, 1),
        150 => (0, 2),
        151 => (0, 2),
        152 => (6, 2),
        153 => (6, 2),
        154 => (21, 1),
        155 => (19, 1),
        156 => (6, 2),
        157 => (6, 2),
        158 => (17, 1),
        159 => (1, 2),
        160 => (6, 0),
        161 => (6, 0),
        162 => (4, 2),
        163 => (4, 2),
        164 => (6, 0),
        165 => (6, 0),
        166 => (4, 2),
        167 => (4, 2),
        168 => (5, 1),
        169 => (5, 1),
        170 => (15, 1),
        171 => (2, 2),
        172 => (5, 1),
        173 => (5, 1),
        174 => (17, 1),
        175 => (2, 2),
        176 => (3, 1),
        177 => (3, 1),
        178 => (14, 1),
        179 => (14, 1),
        180 => (3, 1),
        181 => (3, 1),
        182 => (0, 2),
        183 => (0, 2),
        184 => (6, 2),
        185 => (6, 2),
        186 => (21, 1),
        187 => (19, 1),
        188 => (6, 2),
        189 => (6, 2),
        190 => (17, 1),
        191 => (1, 2),
        192 => (4, 0),
        193 => (4, 0),
        194 => (6, 1),
        195 => (6, 1),
        196 => (4, 0),
        197 => (4, 0),
        198 => (6, 1),
        199 => (6, 1),
        200 => (15, 0),
        201 => (15, 0),
        202 => (21, 0),
        203 => (17, 0),
        204 => (15, 0),
        205 => (15, 0),
        206 => (21, 0),
        207 => (2, 2),
        208 => (0, 0),
        209 => (0, 0),
        210 => (16, 1),
        211 => (16, 1),
        212 => (0, 0),
        213 => (0, 0),
        214 => (0, 1),
        215 => (0, 1),
        216 => (18, 0),
        217 => (17, 0),
        218 => (9, 0),
        219 => (12, 0),
        220 => (18, 0),
        221 => (17, 0),
        222 => (13, 0),
        223 => (8, 0),
        224 => (4, 0),
        225 => (4, 0),
        226 => (6, 1),
        227 => (6, 1),
        228 => (4, 0),
        229 => (4, 0),
        230 => (6, 1),
        231 => (6, 1),
        232 => (2, 0),
        233 => (2, 0),
        234 => (19, 0),
        235 => (2, 1),
        236 => (2, 0),
        237 => (2, 0),
        238 => (19, 0),
        239 => (2, 1),
        240 => (0, 0),
        241 => (0, 0),
        242 => (16, 1),
        243 => (16, 1),
        244 => (0, 0),
        245 => (2, 0),
        246 => (0, 1),
        247 => (0, 1),
        248 => (1, 0),
        249 => (1, 0),
        250 => (11, 1),
        251 => (7, 1),
        252 => (1, 0),
        253 => (1, 0),
        254 => (8, 1),
        _ => (1, 1),
    }
}

impl Surrounds {
    pub fn empty() -> (r: Surrounds)
        ensures
            r.bits == 0,
    {
        Surrounds { bits: 0 }
    }

    pub fn from_bits(bits: u8) -> (r: Surrounds)
        ensures
            r.bits == bits,
    {
        Surrounds { bits }
    }

    pub fn bits(&self) -> (r: u8)
        ensures
            r == self.bits,
    {
        self.bits
    }

    /// Number of occupied neighbours.
    pub fn count(&self) -> (r: u32)
        ensures
            r as nat == bit_count(self.bits as nat),
            r <= 8,
    {
        proof {
            lemma_count_at_most_eight(self.bits);
        }
        let mut m: u8 = self.bits;
        let mut c: u32 = 0;
        while m > 0
            invariant
                c as nat + bit_count(m as nat) == bit_count(self.bits as nat),
                bit_count(self.bits as nat) <= 8,
            decreases m,
        {
            c = c + (m % 2) as u32;
            m = m / 2;
        }
        c
    }

    /// Atlas offset of the texture that fits this neighbour configuration.
    pub fn get_texture_offset(&self) -> (r: (u32, u32))
        ensures
            r == offset_of_mask(self.bits),
    {
        match self.bits {
            0 => (6, 0),
            1 => (6, 0),
            2 => (4, 2),
            3 => (4, 2),
            4 => (6, 0),
            5 => (6, 0),
            6 => (4, 2),
            7 => (4, 2),
            8 => (5, 1),
            9 => (5, 1),
            10 => (15, 1),
            11 => (2, 2),
            12 => (5, 1),
            13 => (5, 1),
            14 => (15, 1),
            15 => (2, 2),
            16 => (3, 1),
            17 => (3, 1),
            18 => (14, 1),
            19 => (14, 1),
            20 => (3, 1),
            21 => (0, 2),
            22 => (0, 2),
            23 => (0, 2),
            24 => (6, 2),
            25 => (6, 2),
            26 => (21, 1),
            27 => (19, 1),
            28 => (6, 2),
            29 => (6, 2),
            30 => (17, 1),
            31 => (1, 2),
            32 => (6, 0),
            33 => (6, 0),
            34 => (4, 2),
            35 => (4, 2),
            36 => (6, 0),
            37 => (6, 0),
            38 => (4, 2),
            39 => (4, 2),
            40 => (5, 1),
            41 => (5, 1),
            42 => (15, 1),
            43 => (2, 2),
            44 => (5, 1),
            45 => (5, 1),
            46 => (15, 1),
            47 => (2, 2),
            48 => (3, 1),
            49 => (3, 1),
            50 => (14, 1),
            51 => (14, 1),
            52 => (3, 1),
            53 => (3, 1),
            54 => (14, 1),
            55 => (0, 2),
            56 => (6, 2),
            57 => (6, 2),
            58 => (21, 1),
            59 => (19, 1),
            60 => (6, 2),
            61 => (6, 2),
            62 => (17, 1),
            63 => (1, 2),
            64 => (4, 0),
            65 => (4, 0),
            66 => (6, 1),
            67 => (6, 1),
            68 => (4, 0),
            69 => (4, 0),
            70 => (6, 1),
            71 => (6, 1),
            72 => (15, 0),
            73 => (15, 0),
            74 => (21, 0),
            75 => (17, 0),
            76 => (15, 0),
            77 => (15, 0),
            78 => (21, 0),
            79 => (17, 0),
            80 => (14, 0),
            81 => (14, 0),
            82 => (20, 1),
            83 => (20, 1),
            84 => (14, 0),
            85 => (14, 0),
            86 => (18, 1),
            87 => (18, 1),
            88 => (20, 0),
            89 => (20, 0),
            90 => (4, 1),
            91 => (10, 1),
            92 => (20, 0),
            93 => (20, 0),
            94 => (10, 1),
            95 => (11, 0),
            96 => (4, 0),
            97 => (4, 0),
            98 => (6, 1),
            99 => (6, 1),
            100 => (4, 0),
            101 => (4, 0),
            102 => (6, 1),
            103 => (6, 1),
            104 => (2, 0),
            105 => (2, 0),
            106 => (19, 0),
            107 => (2, 1),
            108 => (2, 0),
            109 => (2, 0),
            110 => (19, 0),
            111 => (2, 1),
            112 => (14, 0),
            113 => (14, 0),
            114 => (20, 1),
            115 => (20, 1),
            116 => (14, 0),
            117 => (14, 0),
            118 => (18, 1),
            119 => (18, 1),
            120 => (16, 0),
            121 => (16, 0),
            122 => (10, 0),
            123 => (13, 1),
            124 => (16, 0),
            125 => (16, 0),
            126 => (12, 1),
            127 => (7, 0),
            128 => (6, 0),
            129 => (6, 0),
            130 => (4, 2),
            131 => (4, 2),
            132 => (6, 0),
            133 => (6, 0),
            134 => (4, 2),
            135 => (4, 2),
            136 => (5, 1),
            137 => (5, 1),
            138 => (15, 1),
            139 => (2, 2),
            140 => (5, 1),
            141 => (5, 1),
            142 => (15, 1),
            143 => (2, 2),
            144 => (3, 1),
            145 => (3, 1),
            146 => (14, 1),
            147 => (14, 1),
            148 => (3, 1),
            149 => (3, 1),
            150 => (0, 2),
            151 => (0, 2),
            152 => (6, 2),
            153 => (6, 2),
            154 => (21, 1),
            155 => (19, 1),
            156 => (6, 2),
            157 => (6, 2),
            158 => (17, 1),
            159 => (1, 2),
            160 => (6, 0),
            161 => (6, 0),
            162 => (4, 2),
            163 => (4, 2),
            164 => (6, 0),
            165 => (6, 0),
            166 => (4, 2),
            167 => (4, 2),
            168 => (5, 1),
            169 => (5, 1),
            170 => (15, 1),
            171 => (2, 2),
            172 => (5, 1),
            173 => (5, 1),
            174 => (17, 1),
            175 => (2, 2),
            176 => (3, 1),
            177 => (3, 1),
            178 => (14, 1),
            179 => (14, 1),
            180 => (3, 1),
            181 => (3, 1),
            182 => (0, 2),
            183 => (0, 2),
            184 => (6, 2),
            185 => (6, 2),
            186 => (21, 1),
            187 => (19, 1),
            188 => (6, 2),
            189 => (6, 2),
            190 => (17, 1),
            191 => (1, 2),
            192 => (4, 0),
            193 => (4, 0),
            194 => (6, 1),
            195 => (6, 1),
            196 => (4, 0),
            197 => (4, 0),
            198 => (6, 1),
            199 => (6, 1),
            200 => (15, 0),
            201 => (15, 0),
            202 => (21, 0),
            203 => (17, 0),
            204 => (15, 0),
            205 => (15, 0),
            206 => (21, 0),
            207 => (2, 2),
            208 => (0, 0),
            209 => (0, 0),
            210 => (16, 1),
            211 => (16, 1),
            212 => (0, 0),
            213 => (0, 0),
            214 => (0, 1),
            215 => (0, 1),
            216 => (18, 0),
            217 => (17, 0),
            218 => (9, 0),
            219 => (12, 0),
            220 => (18, 0),
            221 => (17, 0),
            222 => (13, 0),
            223 => (8, 0),
            224 => (4, 0),
            225 => (4, 0),
            226 => (6, 1),
            227 => (6, 1),
            228 => (4, 0),
            229 => (4, 0),
            230 => (6, 1),
            231 => (6, 1),
            232 => (2, 0),
            233 => (2, 0),
            234 => (19, 0),
            235 => (2, 1),
            236 => (2, 0),
            237 => (2, 0),
            238 => (19, 0),
            239 => (2, 1),
            240 => (0, 0),
            241 => (0, 0),
            242 => (16, 1),
            243 => (16, 1),
            244 => (0, 0),
            245 => (2, 0),
            246 => (0, 1),
            247 => (0, 1),
            248 => (1, 0),
            249 => (1, 0),
            250 => (11, 1),
            251 => (7, 1),
            252 => (1, 0),
            253 => (1, 0),
            254 => (8, 1),
            _ => (1, 1),
        }
    }
}

} // verus!

//! AES-256 decryption, table driven: the key schedule, the decryption key
//! schedule, single blocks and whole buffers in ECB mode.
use vstd::prelude::*;

verus! {

pub const TE4: [u32; 256] = [
    0x63636363, 0x7c7c7c7c, 0x77777777, 0x7b7b7b7b, 0xf2f2f2f2, 0x6b6b6b6b,
    0x6f6f6f6f, 0xc5c5c5c5, 0x30303030, 0x01010101, 0x67676767, 0x2b2b2b2b,
    0xfefefefe, 0xd7d7d7d7, 0xabababab, 0x76767676, 0xcacacaca, 0x82828282,
    0xc9c9c9c9, 0x7d7d7d7d, 0xfafafafa, 0x59595959, 0x47474747, 0xf0f0f0f0,
    0xadadadad, 0xd4d4d4d4, 0xa2a2a2a2, 0xafafafaf, 0x9c9c9c9c, 0xa4a4a4a4,
    0x72727272, 0xc0c0c0c0, 0xb7b7b7b7, 0xfdfdfdfd, 0x93939393, 0x26262626,
    0x36363636, 0x3f3f3f3f, 0xf7f7f7f7, 0xcccccccc, 0x34343434, 0xa5a5a5a5,
    0xe5e5e5e5, 0xf1f1f1f1, 0x71717171, 0xd8d8d8d8, 0x31313131, 0x15151515,
    0x04040404, 0xc7c7c7c7, 0x23232323, 0xc3c3c3c3, 0x18181818, 0x96969696,
    0x05050505, 0x9a9a9a9a, 0x07070707, 0x12121212, 0x80808080, 0xe2e2e2e2,
    0xebebebeb, 0x27272727, 0xb2b2b2b2, 0x75757575, 0x09090909, 0x83838383,
    0x2c2c2c2c, 0x1a1a1a1a, 0x1b1b1b1b, 0x6e6e6e6e, 0x5a5a5a5a, 0xa0a0a0a0,
    0x52525252, 0x3b3b3b3b, 0xd6d6d6d6, 0xb3b3b3b3, 0x29292929, 0xe3e3e3e3,
    0x2f2f2f2f, 0x84848484, 0x53535353, 0xd1d1d1d1, 0x00000000, 0xedededed,
    0x20202020, 0xfcfcfcfc, 0xb1b1b1b1, 0x5b5b5b5b, 0x6a6a6a6a, 0xcbcbcbcb,
    0xbebebebe, 0x39393939, 0x4a4a4a4a, 0x4c4c4c4c, 0x58585858, 0xcfcfcfcf,
    0xd0d0d0d0, 0xefefefef, 0xaaaaaaaa, 0xfbfbfbfb, 0x43434343, 0x4d4d4d4d,
    0x33333333, 0x85858585, 0x45454545, 0xf9f9f9f9, 0x02020202, 0x7f7f7f7f,
    0x50505050, 0x3c3c3c3c, 0x9f9f9f9f, 0xa8a8a8a8, 0x51515151, 0xa3a3a3a3,
    0x40404040, 0x8f8f8f8f, 0x92929292, 0x9d9d9d9d, 0x38383838, 0xf5f5f5f5,
    0xbcbcbcbc, 0xb6b6b6b6, 0xdadadada, 0x21212121, 0x10101010, 0xffffffff,
    0xf3f3f3f3, 0xd2d2d2d2, 0xcdcdcdcd, 0x0c0c0c0c, 0x13131313, 0xecececec,
    0x5f5f5f5f, 0x97979797, 0x44444444, 0x17171717, 0xc4c4c4c4, 0xa7a7a7a7,
    0x7e7e7e7e, 0x3d3d3d3d, 0x64646464, 0x5d5d5d5d, 0x19191919, 0x73737373,
    0x60606060, 0x81818181, 0x4f4f4f4f, 0xdcdcdcdc, 0x22222222, 0x2a2a2a2a,
    0x90909090, 0x88888888, 0x46464646, 0xeeeeeeee, 0xb8b8b8b8, 0x14141414,
    0xdededede, 0x5e5e5e5e, 0x0b0b0b0b, 0xdbdbdbdb, 0xe0e0e0e0, 0x32323232,
    0x3a3a3a3a, 0x0a0a0a0a, 0x49494949, 0x06060606, 0x24242424, 0x5c5c5c5c,
    0xc2c2c2c2, 0xd3d3d3d3, 0xacacacac, 0x62626262, 0x91919191, 0x95959595,
    0xe4e4e4e4, 0x79797979, 0xe7e7e7e7, 0xc8c8c8c8, 0x37373737, 0x6d6d6d6d,
    0x8d8d8d8d, 0xd5d5d5d5, 0x4e4e4e4e, 0xa9a9a9a9, 0x6c6c6c6c, 0x56565656,
    0xf4f4f4f4, 0xeaeaeaea, 0x65656565, 0x7a7a7a7a, 0xaeaeaeae, 0x08080808,
    0xbabababa, 0x78787878, 0x25252525, 0x2e2e2e2e, 0x1c1c1c1c, 0xa6a6a6a6,
    0xb4b4b4b4, 0xc6c6c6c6, 0xe8e8e8e8, 0xdddddddd, 0x74747474, 0x1f1f1f1f,
    0x4b4b4b4b, 0xbdbdbdbd, 0x8b8b8b8b, 0x8a8a8a8a, 0x70707070, 0x3e3e3e3e,
    0xb5b5b5b5, 0x66666666, 0x48484848, 0x03030303, 0xf6f6f6f6, 0x0e0e0e0e,
    0x61616161, 0x35353535, 0x57575757, 0xb9b9b9b9, 0x86868686, 0xc1c1c1c1,
    0x1d1d1d1d, 0x9e9e9e9e, 0xe1e1e1e1, 0xf8f8f8f8, 0x98989898, 0x11111111,
    0x69696969, 0xd9d9d9d9, 0x8e8e8e8e, 0x94949494, 0x9b9b9b9b, 0x1e1e1e1e,
    0x87878787, 0xe9e9e9e9, 0xcececece, 0x55555555, 0x28282828, 0xdfdfdfdf,
    0x8c8c8c8c, 0xa1a1a1a1, 0x89898989, 0x0d0d0d0d, 0xbfbfbfbf, 0xe6e6e6e6,
    0x42424242, 0x68686868, 0x41414141, 0x99999999, 0x2d2d2d2d, 0x0f0f0f0f,
    0xb0b0b0b0, 0x54545454, 0xbbbbbbbb, 0x16161616,
];

pub const TD0: [u32; 256] = [
    0x51f4a750, 0x7e416553, 0x1a17a4c3, 0x3a275e96, 0x3bab6bcb, 0x1f9d45f1,
    0xacfa58ab, 0x4be30393, 0x2030fa55, 0xad766df6, 0x88cc7691, 0xf5024c25,
    0x4fe5d7fc, 0xc52acbd7, 0x26354480, 0xb562a38f, 0xdeb15a49, 0x25ba1b67,
    0x45ea0e98, 0x5dfec0e1, 0xc32f7502, 0x814cf012, 0x8d4697a3, 0x6bd3f9c6,
    0x038f5fe7, 0x15929c95, 0xbf6d7aeb, 0x955259da, 0xd4be832d, 0x587421d3,
    0x49e06929, 0x8ec9c844, 0x75c2896a, 0xf48e7978, 0x99583e6b, 0x27b971dd,
    0xbee14fb6, 0xf088ad17, 0xc920ac66, 0x7dce3ab4, 0x63df4a18, 0xe51a3182,
    0x97513360, 0x62537f45, 0xb16477e0, 0xbb6bae84, 0xfe81a01c, 0xf9082b94,
    0x70486858, 0x8f45fd19, 0x94de6c87, 0x527bf8b7, 0xab73d323, 0x724b02e2,
    0xe31f8f57, 0x6655ab2a, 0xb2eb2807, 0x2fb5c203, 0x86c57b9a, 0xd33708a5,
    0x302887f2, 0x23bfa5b2, 0x02036aba, 0xed16825c, 0x8acf1c2b, 0xa779b492,
    0xf307f2f0, 0x4e69e2a1, 0x65daf4cd, 0x0605bed5, 0xd134621f, 0xc4a6fe8a,
    0x342e539d, 0xa2f355a0, 0x058ae132, 0xa4f6eb75, 0x0b83ec39, 0x4060efaa,
    0x5e719f06, 0xbd6e1051, 0x3e218af9, 0x96dd063d, 0xdd3e05ae, 0x4de6bd46,
    0x91548db5, 0x71c45d05, 0x0406d46f, 0x605015ff, 0x1998fb24, 0xd6bde997,
    0x894043cc, 0x67d99e77, 0xb0e842bd, 0x07898b88, 0xe7195b38, 0x79c8eedb,
    0xa17c0a47, 0x7c420fe9, 0xf8841ec9, 0x00000000, 0x09808683, 0x322bed48,
    0x1e1170ac, 0x6c5a724e, 0xfd0efffb, 0x0f853856, 0x3daed51e, 0x362d3927,
    0x0a0fd964, 0x685ca621, 0x9b5b54d1, 0x24362e3a, 0x0c0a67b1, 0x9357e70f,
    0xb4ee96d2, 0x1b9b919e, 0x80c0c54f, 0x61dc20a2, 0x5a774b69, 0x1c121a16,
    0xe293ba0a, 0xc0a02ae5, 0x3c22e043, 0x121b171d, 0x0e090d0b, 0xf28bc7ad,
    0x2db6a8b9, 0x141ea9c8, 0x57f11985, 0xaf75074c, 0xee99ddbb, 0xa37f60fd,
    0xf701269f, 0x5c72f5bc, 0x44663bc5, 0x5bfb7e34, 0x8b432976, 0xcb23c6dc,
    0xb6edfc68, 0xb8e4f163, 0xd731dcca, 0x42638510, 0x13972240, 0x84c61120,
    0x854a247d, 0xd2bb3df8, 0xaef93211, 0xc729a16d, 0x1d9e2f4b, 0xdcb230f3,
    0x0d8652ec, 0x77c1e3d0, 0x2bb3166c, 0xa970b999, 0x119448fa, 0x47e96422,
    0xa8fc8cc4, 0xa0f03f1a, 0x567d2cd8, 0x223390ef, 0x87494ec7, 0xd938d1c1,
    0x8ccaa2fe, 0x98d40b36, 0xa6f581cf, 0xa57ade28, 0xdab78e26, 0x3fadbfa4,
    0x2c3a9de4, 0x5078920d, 0x6a5fcc9b, 0x547e4662, 0xf68d13c2, 0x90d8b8e8,
    0x2e39f75e, 0x82c3aff5, 0x9f5d80be, 0x69d0937c, 0x6fd52da9, 0xcf2512b3,
    0xc8ac993b, 0x10187da7, 0xe89c636e, 0xdb3bbb7b, 0xcd267809, 0x6e5918f4,
    0xec9ab701, 0x834f9aa8, 0xe6956e65, 0xaaffe67e, 0x21bccf08, 0xef15e8e6,
    0xbae79bd9, 0x4a6f36ce, 0xea9f09d4, 0x29b07cd6, 0x31a4b2af, 0x2a3f2331,
    0xc6a59430, 0x35a266c0, 0x744ebc37, 0xfc82caa6, 0xe090d0b0, 0x33a7d815,
    0xf104984a, 0x41ecdaf7, 0x7fcd500e, 0x1791f62f, 0x764dd68d, 0x43efb04d,
    0xccaa4d54, 0xe49604df, 0x9ed1b5e3, 0x4c6a881b, 0xc12c1fb8, 0x4665517f,
    0x9d5eea04, 0x018c355d, 0xfa877473, 0xfb0b412e, 0xb3671d5a, 0x92dbd252,
    0xe9105633, 0x6dd64713, 0x9ad7618c, 0x37a10c7a, 0x59f8148e, 0xeb133c89,
    0xcea927ee, 0xb761c935, 0xe11ce5ed, 0x7a47b13c, 0x9cd2df59, 0x55f2733f,
    0x1814ce79, 0x73c737bf, 0x53f7cdea, 0x5ffdaa5b, 0xdf3d6f14, 0x7844db86,
    0xcaaff381, 0xb968c43e, 0x3824342c, 0xc2a3405f, 0x161dc372, 0xbce2250c,
    0x283c498b, 0xff0d9541, 0x39a80171, 0x080cb3de, 0xd8b4e49c, 0x6456c190,
    0x7bcb8461, 0xd532b670, 0x486c5c74, 0xd0b85742,
];

pub const TD1: [u32; 256] = [
    0x5051f4a7, 0x537e4165, 0xc31a17a4, 0x963a275e, 0xcb3bab6b, 0xf11f9d45,
    0xabacfa58, 0x934be303, 0x552030fa, 0xf6ad766d, 0x9188cc76, 0x25f5024c,
    0xfc4fe5d7, 0xd7c52acb, 0x80263544, 0x8fb562a3, 0x49deb15a, 0x6725ba1b,
    0x9845ea0e, 0xe15dfec0, 0x02c32f75, 0x12814cf0, 0xa38d4697, 0xc66bd3f9,
    0xe7038f5f, 0x9515929c, 0xebbf6d7a, 0xda955259, 0x2dd4be83, 0xd3587421,
    0x2949e069, 0x448ec9c8, 0x6a75c289, 0x78f48e79, 0x6b99583e, 0xdd27b971,
    0xb6bee14f, 0x17f088ad, 0x66c920ac, 0xb47dce3a, 0x1863df4a, 0x82e51a31,
    0x60975133, 0x4562537f, 0xe0b16477, 0x84bb6bae, 0x1cfe81a0, 0x94f9082b,
    0x58704868, 0x198f45fd, 0x8794de6c, 0xb7527bf8, 0x23ab73d3, 0xe2724b02,
    0x57e31f8f, 0x2a6655ab, 0x07b2eb28, 0x032fb5c2, 0x9a86c57b, 0xa5d33708,
    0xf2302887, 0xb223bfa5, 0xba02036a, 0x5ced1682, 0x2b8acf1c, 0x92a779b4,
    0xf0f307f2, 0xa14e69e2, 0xcd65daf4, 0xd50605be, 0x1fd13462, 0x8ac4a6fe,
    0x9d342e53, 0xa0a2f355, 0x32058ae1, 0x75a4f6eb, 0x390b83ec, 0xaa4060ef,
    0x065e719f, 0x51bd6e10, 0xf93e218a, 0x3d96dd06, 0xaedd3e05, 0x464de6bd,
    0xb591548d, 0x0571c45d, 0x6f0406d4, 0xff605015, 0x241998fb, 0x97d6bde9,
    0xcc894043, 0x7767d99e, 0xbdb0e842, 0x8807898b, 0x38e7195b, 0xdb79c8ee,
    0x47a17c0a, 0xe97c420f, 0xc9f8841e, 0x00000000, 0x83098086, 0x48322bed,
    0xac1e1170, 0x4e6c5a72, 0xfbfd0eff, 0x560f8538, 0x1e3daed5, 0x27362d39,
    0x640a0fd9, 0x21685ca6, 0xd19b5b54, 0x3a24362e, 0xb10c0a67, 0x0f9357e7,
    0xd2b4ee96, 0x9e1b9b91, 0x4f80c0c5, 0xa261dc20, 0x695a774b, 0x161c121a,
    0x0ae293ba, 0xe5c0a02a, 0x433c22e0, 0x1d121b17, 0x0b0e090d, 0xadf28bc7,
    0xb92db6a8, 0xc8141ea9, 0x8557f119, 0x4caf7507, 0xbbee99dd, 0xfda37f60,
    0x9ff70126, 0xbc5c72f5, 0xc544663b, 0x345bfb7e, 0x768b4329, 0xdccb23c6,
    0x68b6edfc, 0x63b8e4f1, 0xcad731dc, 0x10426385, 0x40139722, 0x2084c611,
    0x7d854a24, 0xf8d2bb3d, 0x11aef932, 0x6dc729a1, 0x4b1d9e2f, 0xf3dcb230,
    0xec0d8652, 0xd077c1e3, 0x6c2bb316, 0x99a970b9, 0xfa119448, 0x2247e964,
    0xc4a8fc8c, 0x1aa0f03f, 0xd8567d2c, 0xef223390, 0xc787494e, 0xc1d938d1,
    0xfe8ccaa2, 0x3698d40b, 0xcfa6f581, 0x28a57ade, 0x26dab78e, 0xa43fadbf,
    0xe42c3a9d, 0x0d507892, 0x9b6a5fcc, 0x62547e46, 0xc2f68d13, 0xe890d8b8,
    0x5e2e39f7, 0xf582c3af, 0xbe9f5d80, 0x7c69d093, 0xa96fd52d, 0xb3cf2512,
    0x3bc8ac99, 0xa710187d, 0x6ee89c63, 0x7bdb3bbb, 0x09cd2678, 0xf46e5918,
    0x01ec9ab7, 0xa8834f9a, 0x65e6956e, 0x7eaaffe6, 0x0821bccf, 0xe6ef15e8,
    0xd9bae79b, 0xce4a6f36, 0xd4ea9f09, 0xd629b07c, 0xaf31a4b2, 0x312a3f23,
    0x30c6a594, 0xc035a266, 0x37744ebc, 0xa6fc82ca, 0xb0e090d0, 0x1533a7d8,
    0x4af10498, 0xf741ecda, 0x0e7fcd50, 0x2f1791f6, 0x8d764dd6, 0x4d43efb0,
    0x54ccaa4d, 0xdfe49604, 0xe39ed1b5, 0x1b4c6a88, 0xb8c12c1f, 0x7f466551,
    0x049d5eea, 0x5d018c35, 0x73fa8774, 0x2efb0b41, 0x5ab3671d, 0x5292dbd2,
    0x33e91056, 0x136dd647, 0x8c9ad761, 0x7a37a10c, 0x8e59f814, 0x89eb133c,
    0xeecea927, 0x35b761c9, 0xede11ce5, 0x3c7a47b1, 0x599cd2df, 0x3f55f273,
    0x791814ce, 0xbf73c737, 0xea53f7cd, 0x5b5ffdaa, 0x14df3d6f, 0x867844db,
    0x81caaff3, 0x3eb968c4, 0x2c382434, 0x5fc2a340, 0x72161dc3, 0x0cbce225,
    0x8b283c49, 0x41ff0d95, 0x7139a801, 0xde080cb3, 0x9cd8b4e4, 0x906456c1,
    0x617bcb84, 0x70d532b6, 0x74486c5c, 0x42d0b857,
];

pub const TD2: [u32; 256] = [
    0xa75051f4, 0x65537e41, 0xa4c31a17, 0x5e963a27, 0x6bcb3bab, 0x45f11f9d,
    0x58abacfa, 0x03934be3, 0xfa552030, 0x6df6ad76, 0x769188cc, 0x4c25f502,
    0xd7fc4fe5, 0xcbd7c52a, 0x44802635, 0xa38fb562, 0x5a49deb1, 0x1b6725ba,
    0x0e9845ea, 0xc0e15dfe, 0x7502c32f, 0xf012814c, 0x97a38d46, 0xf9c66bd3,
    0x5fe7038f, 0x9c951592, 0x7aebbf6d, 0x59da9552, 0x832dd4be, 0x21d35874,
    0x692949e0, 0xc8448ec9, 0x896a75c2, 0x7978f48e, 0x3e6b9958, 0x71dd27b9,
    0x4fb6bee1, 0xad17f088, 0xac66c920, 0x3ab47dce, 0x4a1863df, 0x3182e51a,
    0x33609751, 0x7f456253, 0x77e0b164, 0xae84bb6b, 0xa01cfe81, 0x2b94f908,
    0x68587048, 0xfd198f45, 0x6c8794de, 0xf8b7527b, 0xd323ab73, 0x02e2724b,
    0x8f57e31f, 0xab2a6655, 0x2807b2eb, 0xc2032fb5, 0x7b9a86c5, 0x08a5d337,
    0x87f23028, 0xa5b223bf, 0x6aba0203, 0x825ced16, 0x1c2b8acf, 0xb492a779,
    0xf2f0f307, 0xe2a14e69, 0xf4cd65da, 0xbed50605, 0x621fd134, 0xfe8ac4a6,
    0x539d342e, 0x55a0a2f3, 0xe132058a, 0xeb75a4f6, 0xec390b83, 0xefaa4060,
    0x9f065e71, 0x1051bd6e, 0x8af93e21, 0x063d96dd, 0x05aedd3e, 0xbd464de6,
    0x8db59154, 0x5d0571c4, 0xd46f0406, 0x15ff6050, 0xfb241998, 0xe997d6bd,
    0x43cc8940, 0x9e7767d9, 0x42bdb0e8, 0x8b880789, 0x5b38e719, 0xeedb79c8,
    0x0a47a17c, 0x0fe97c42, 0x1ec9f884, 0x00000000, 0x86830980, 0xed48322b,
    0x70ac1e11, 0x724e6c5a, 0xfffbfd0e, 0x38560f85, 0xd51e3dae, 0x3927362d,
    0xd9640a0f, 0xa621685c, 0x54d19b5b, 0x2e3a2436, 0x67b10c0a, 0xe70f9357,
    0x96d2b4ee, 0x919e1b9b, 0xc54f80c0, 0x20a261dc, 0x4b695a77, 0x1a161c12,
    0xba0ae293, 0x2ae5c0a0, 0xe0433c22, 0x171d121b, 0x0d0b0e09, 0xc7adf28b,
    0xa8b92db6, 0xa9c8141e, 0x198557f1, 0x074caf75, 0xddbbee99, 0x60fda37f,
    0x269ff701, 0xf5bc5c72, 0x3bc54466, 0x7e345bfb, 0x29768b43, 0xc6dccb23,
    0xfc68b6ed, 0xf163b8e4, 0xdccad731, 0x85104263, 0x22401397, 0x112084c6,
    0x247d854a, 0x3df8d2bb, 0x3211aef9, 0xa16dc729, 0x2f4b1d9e, 0x30f3dcb2,
    0x52ec0d86, 0xe3d077c1, 0x166c2bb3, 0xb999a970, 0x48fa1194, 0x642247e9,
    0x8cc4a8fc, 0x3f1aa0f0, 0x2cd8567d, 0x90ef2233, 0x4ec78749, 0xd1c1d938,
    0xa2fe8cca, 0x0b3698d4, 0x81cfa6f5, 0xde28a57a, 0x8e26dab7, 0xbfa43fad,
    0x9de42c3a, 0x920d5078, 0xcc9b6a5f, 0x4662547e, 0x13c2f68d, 0xb8e890d8,
    0xf75e2e39, 0xaff582c3, 0x80be9f5d, 0x937c69d0, 0x2da96fd5, 0x12b3cf25,
    0x993bc8ac, 0x7da71018, 0x636ee89c, 0xbb7bdb3b, 0x7809cd26, 0x18f46e59,
    0xb701ec9a, 0x9aa8834f, 0x6e65e695, 0xe67eaaff, 0xcf0821bc, 0xe8e6ef15,
    0x9bd9bae7, 0x36ce4a6f, 0x09d4ea9f, 0x7cd629b0, 0xb2af31a4, 0x23312a3f,
    0x9430c6a5, 0x66c035a2, 0xbc37744e, 0xcaa6fc82, 0xd0b0e090, 0xd81533a7,
    0x984af104, 0xdaf741ec, 0x500e7fcd, 0xf62f1791, 0xd68d764d, 0xb04d43ef,
    0x4d54ccaa, 0x04dfe496, 0xb5e39ed1, 0x881b4c6a, 0x1fb8c12c, 0x517f4665,
    0xea049d5e, 0x355d018c, 0x7473fa87, 0x412efb0b, 0x1d5ab367, 0xd25292db,
    0x5633e910, 0x47136dd6, 0x618c9ad7, 0x0c7a37a1, 0x148e59f8, 0x3c89eb13,
    0x27eecea9, 0xc935b761, 0xe5ede11c, 0xb13c7a47, 0xdf599cd2, 0x733f55f2,
    0xce791814, 0x37bf73c7, 0xcdea53f7, 0xaa5b5ffd, 0x6f14df3d, 0xdb867844,
    0xf381caaf, 0xc43eb968, 0x342c3824, 0x405fc2a3, 0xc372161d, 0x250cbce2,
    0x498b283c, 0x9541ff0d, 0x017139a8, 0xb3de080c, 0xe49cd8b4, 0xc1906456,
    0x84617bcb, 0xb670d532, 0x5c74486c, 0x5742d0b8,
];

pub const TD3: [u32; 256] = [
    0xf4a75051, 0x4165537e, 0x17a4c31a, 0x275e963a, 0xab6bcb3b, 0x9d45f11f,
    0xfa58abac, 0xe303934b, 0x30fa5520, 0x766df6ad, 0xcc769188, 0x024c25f5,
    0xe5d7fc4f, 0x2acbd7c5, 0x35448026, 0x62a38fb5, 0xb15a49de, 0xba1b6725,
    0xea0e9845, 0xfec0e15d, 0x2f7502c3, 0x4cf01281, 0x4697a38d, 0xd3f9c66b,
    0x8f5fe703, 0x929c9515, 0x6d7aebbf, 0x5259da95, 0xbe832dd4, 0x7421d358,
    0xe0692949, 0xc9c8448e, 0xc2896a75, 0x8e7978f4, 0x583e6b99, 0xb971dd27,
    0xe14fb6be, 0x88ad17f0, 0x20ac66c9, 0xce3ab47d, 0xdf4a1863, 0x1a3182e5,
    0x51336097, 0x537f4562, 0x6477e0b1, 0x6bae84bb, 0x81a01cfe, 0x082b94f9,
    0x48685870, 0x45fd198f, 0xde6c8794, 0x7bf8b752, 0x73d323ab, 0x4b02e272,
    0x1f8f57e3, 0x55ab2a66, 0xeb2807b2, 0xb5c2032f, 0xc57b9a86, 0x3708a5d3,
    0x2887f230, 0xbfa5b223, 0x036aba02, 0x16825ced, 0xcf1c2b8a, 0x79b492a7,
    0x07f2f0f3, 0x69e2a14e, 0xdaf4cd65, 0x05bed506, 0x34621fd1, 0xa6fe8ac4,
    0x2e539d34, 0xf355a0a2, 0x8ae13205, 0xf6eb75a4, 0x83ec390b, 0x60efaa40,
    0x719f065e, 0x6e1051bd, 0x218af93e, 0xdd063d96, 0x3e05aedd, 0xe6bd464d,
    0x548db591, 0xc45d0571, 0x06d46f04, 0x5015ff60, 0x98fb2419, 0xbde997d6,
    0x4043cc89, 0xd99e7767, 0xe842bdb0, 0x898b8807, 0x195b38e7, 0xc8eedb79,
    0x7c0a47a1, 0x420fe97c, 0x841ec9f8, 0x00000000, 0x80868309, 0x2bed4832,
    0x1170ac1e, 0x5a724e6c, 0x0efffbfd, 0x8538560f, 0xaed51e3d, 0x2d392736,
    0x0fd9640a, 0x5ca62168, 0x5b54d19b, 0x362e3a24, 0x0a67b10c, 0x57e70f93,
    0xee96d2b4, 0x9b919e1b, 0xc0c54f80, 0xdc20a261, 0x774b695a, 0x121a161c,
    0x93ba0ae2, 0xa02ae5c0, 0x22e0433c, 0x1b171d12, 0x090d0b0e, 0x8bc7adf2,
    0xb6a8b92d, 0x1ea9c814, 0xf1198557, 0x75074caf, 0x99ddbbee, 0x7f60fda3,
    0x01269ff7, 0x72f5bc5c, 0x663bc544, 0xfb7e345b, 0x4329768b, 0x23c6dccb,
    0xedfc68b6, 0xe4f163b8, 0x31dccad7, 0x63851042, 0x97224013, 0xc6112084,
    0x4a247d85, 0xbb3df8d2, 0xf93211ae, 0x29a16dc7, 0x9e2f4b1d, 0xb230f3dc,
    0x8652ec0d, 0xc1e3d077, 0xb3166c2b, 0x70b999a9, 0x9448fa11, 0xe9642247,
    0xfc8cc4a8, 0xf03f1aa0, 0x7d2cd856, 0x3390ef22, 0x494ec787, 0x38d1c1d9,
    0xcaa2fe8c, 0xd40b3698, 0xf581cfa6, 0x7ade28a5, 0xb78e26da, 0xadbfa43f,
    0x3a9de42c, 0x78920d50, 0x5fcc9b6a, 0x7e466254, 0x8d13c2f6, 0xd8b8e890,
    0x39f75e2e, 0xc3aff582, 0x5d80be9f, 0xd0937c69, 0xd52da96f, 0x2512b3cf,
    0xac993bc8, 0x187da710, 0x9c636ee8, 0x3bbb7bdb, 0x267809cd, 0x5918f46e,
    0x9ab701ec, 0x4f9aa883, 0x956e65e6, 0xffe67eaa, 0xbccf0821, 0x15e8e6ef,
    0xe79bd9ba, 0x6f36ce4a, 0x9f09d4ea, 0xb07cd629, 0xa4b2af31, 0x3f23312a,
    0xa59430c6, 0xa266c035, 0x4ebc3774, 0x82caa6fc, 0x90d0b0e0, 0xa7d81533,
    0x04984af1, 0xecdaf741, 0xcd500e7f, 0x91f62f17, 0x4dd68d76, 0xefb04d43,
    0xaa4d54cc, 0x9604dfe4, 0xd1b5e39e, 0x6a881b4c, 0x2c1fb8c1, 0x65517f46,
    0x5eea049d, 0x8c355d01, 0x877473fa, 0x0b412efb, 0x671d5ab3, 0xdbd25292,
    0x105633e9, 0xd647136d, 0xd7618c9a, 0xa10c7a37, 0xf8148e59, 0x133c89eb,
    0xa927eece, 0x61c935b7, 0x1ce5ede1, 0x47b13c7a, 0xd2df599c, 0xf2733f55,
    0x14ce7918, 0xc737bf73, 0xf7cdea53, 0xfdaa5b5f, 0x3d6f14df, 0x44db8678,
    0xaff381ca, 0x68c43eb9, 0x24342c38, 0xa3405fc2, 0x1dc37216, 0xe2250cbc,
    0x3c498b28, 0x0d9541ff, 0xa8017139, 0x0cb3de08, 0xb4e49cd8, 0x56c19064,
    0xcb84617b, 0x32b670d5, 0x6c5c7448, 0xb85742d0,
];

pub const TD4: [u32; 256] = [
    0x52525252, 0x09090909, 0x6a6a6a6a, 0xd5d5d5d5, 0x30303030, 0x36363636,
    0xa5a5a5a5, 0x38383838, 0xbfbfbfbf, 0x40404040, 0xa3a3a3a3, 0x9e9e9e9e,
    0x81818181, 0xf3f3f3f3, 0xd7d7d7d7, 0xfbfbfbfb, 0x7c7c7c7c, 0xe3e3e3e3,
    0x39393939, 0x82828282, 0x9b9b9b9b, 0x2f2f2f2f, 0xffffffff, 0x87878787,
    0x34343434, 0x8e8e8e8e, 0x43434343, 0x44444444, 0xc4c4c4c4, 0xdededede,
    0xe9e9e9e9, 0xcbcbcbcb, 0x54545454, 0x7b7b7b7b, 0x94949494, 0x32323232,
    0xa6a6a6a6, 0xc2c2c2c2, 0x23232323, 0x3d3d3d3d, 0xeeeeeeee, 0x4c4c4c4c,
    0x95959595, 0x0b0b0b0b, 0x42424242, 0xfafafafa, 0xc3c3c3c3, 0x4e4e4e4e,
    0x08080808, 0x2e2e2e2e, 0xa1a1a1a1, 0x66666666, 0x28282828, 0xd9d9d9d9,
    0x24242424, 0xb2b2b2b2, 0x76767676, 0x5b5b5b5b, 0xa2a2a2a2, 0x49494949,
    0x6d6d6d6d, 0x8b8b8b8b, 0xd1d1d1d1, 0x25252525, 0x72727272, 0xf8f8f8f8,
    0xf6f6f6f6, 0x64646464, 0x86868686, 0x68686868, 0x98989898, 0x16161616,
    0xd4d4d4d4, 0xa4a4a4a4, 0x5c5c5c5c, 0xcccccccc, 0x5d5d5d5d, 0x65656565,
    0xb6b6b6b6, 0x92929292, 0x6c6c6c6c, 0x70707070, 0x48484848, 0x50505050,
    0xfdfdfdfd, 0xedededed, 0xb9b9b9b9, 0xdadadada, 0x5e5e5e5e, 0x15151515,
    0x46464646, 0x57575757, 0xa7a7a7a7, 0x8d8d8d8d, 0x9d9d9d9d, 0x84848484,
    0x90909090, 0xd8d8d8d8, 0xabababab, 0x00000000, 0x8c8c8c8c, 0xbcbcbcbc,
    0xd3d3d3d3, 0x0a0a0a0a, 0xf7f7f7f7, 0xe4e4e4e4, 0x58585858, 0x05050505,
    0xb8b8b8b8, 0xb3b3b3b3, 0x45454545, 0x06060606, 0xd0d0d0d0, 0x2c2c2c2c,
    0x1e1e1e1e, 0x8f8f8f8f, 0xcacacaca, 0x3f3f3f3f, 0x0f0f0f0f, 0x02020202,
    0xc1c1c1c1, 0xafafafaf, 0xbdbdbdbd, 0x03030303, 0x01010101, 0x13131313,
    0x8a8a8a8a, 0x6b6b6b6b, 0x3a3a3a3a, 0x91919191, 0x11111111, 0x41414141,
    0x4f4f4f4f, 0x67676767, 0xdcdcdcdc, 0xeaeaeaea, 0x97979797, 0xf2f2f2f2,
    0xcfcfcfcf, 0xcececece, 0xf0f0f0f0, 0xb4b4b4b4, 0xe6e6e6e6, 0x73737373,
    0x96969696, 0xacacacac, 0x74747474, 0x22222222, 0xe7e7e7e7, 0xadadadad,
    0x35353535, 0x85858585, 0xe2e2e2e2, 0xf9f9f9f9, 0x37373737, 0xe8e8e8e8,
    0x1c1c1c1c, 0x75757575, 0xdfdfdfdf, 0x6e6e6e6e, 0x47474747, 0xf1f1f1f1,
    0x1a1a1a1a, 0x71717171, 0x1d1d1d1d, 0x29292929, 0xc5c5c5c5, 0x89898989,
    0x6f6f6f6f, 0xb7b7b7b7, 0x62626262, 0x0e0e0e0e, 0xaaaaaaaa, 0x18181818,
    0xbebebebe, 0x1b1b1b1b, 0xfcfcfcfc, 0x56565656, 0x3e3e3e3e, 0x4b4b4b4b,
    0xc6c6c6c6, 0xd2d2d2d2, 0x79797979, 0x20202020, 0x9a9a9a9a, 0xdbdbdbdb,
    0xc0c0c0c0, 0xfefefefe, 0x78787878, 0xcdcdcdcd, 0x5a5a5a5a, 0xf4f4f4f4,
    0x1f1f1f1f, 0xdddddddd, 0xa8a8a8a8, 0x33333333, 0x88888888, 0x07070707,
    0xc7c7c7c7, 0x31313131, 0xb1b1b1b1, 0x12121212, 0x10101010, 0x59595959,
    0x27272727, 0x80808080, 0xecececec, 0x5f5f5f5f, 0x60606060, 0x51515151,
    0x7f7f7f7f, 0xa9a9a9a9, 0x19191919, 0xb5b5b5b5, 0x4a4a4a4a, 0x0d0d0d0d,
    0x2d2d2d2d, 0xe5e5e5e5, 0x7a7a7a7a, 0x9f9f9f9f, 0x93939393, 0xc9c9c9c9,
    0x9c9c9c9c, 0xefefefef, 0xa0a0a0a0, 0xe0e0e0e0, 0x3b3b3b3b, 0x4d4d4d4d,
    0xaeaeaeae, 0x2a2a2a2a, 0xf5f5f5f5, 0xb0b0b0b0, 0xc8c8c8c8, 0xebebebeb,
    0xbbbbbbbb, 0x3c3c3c3c, 0x83838383, 0x53535353, 0x99999999, 0x61616161,
    0x17171717, 0x2b2b2b2b, 0x04040404, 0x7e7e7e7e, 0xbabababa, 0x77777777,
    0xd6d6d6d6, 0x26262626, 0xe1e1e1e1, 0x69696969, 0x14141414, 0x63636363,
    0x55555555, 0x21212121, 0x0c0c0c0c, 0x7d7d7d7d,
];

pub const RCON: [u32; 10] = [
    0x01000000, 0x02000000, 0x04000000, 0x08000000, 0x10000000, 0x20000000,
    0x40000000, 0x80000000, 0x1b000000, 0x36000000,
];

/// The big-endian word at `p`.
pub open spec fn be_word(s: Seq<u8>, p: int) -> u32 {
    (s[p] * 16777216 + s[p + 1] * 65536 + s[p + 2] * 256 + s[p + 3]) as u32
}

/// The bytes of a word, most significant first.
pub open spec fn word_bytes(w: u32) -> Seq<u8> {
    seq![(w >> 24u32) as u8, ((w >> 16u32) & 0xff) as u8, ((w >> 8u32) & 0xff) as u8, (w & 0xff) as u8]
}

/// S-box substitution of each byte of a word.
pub open spec fn sub_word(w: u32) -> u32 {
    (TE4[(w >> 24u32) as int] & 0xff000000) ^ (TE4[((w >> 16u32) & 0xff) as int] & 0xff0000) ^ (
    TE4[((w >> 8u32) & 0xff) as int] & 0xff00) ^ (TE4[(w & 0xff) as int] & 0xff)
}

/// S-box substitution of a word rotated left by one byte.
pub open spec fn rot_sub_word(w: u32) -> u32 {
    (TE4[((w >> 16u32) & 0xff) as int] & 0xff000000) ^ (TE4[((w >> 8u32) & 0xff) as int] & 0xff0000)
        ^ (TE4[(w & 0xff) as int] & 0xff00) ^ (TE4[(w >> 24u32) as int] & 0xff)
}

/// Word `n` of the AES-256 encryption key schedule of `key`.
pub open spec fn enc_key_word(key: Seq<u8>, n: nat) -> u32
    decreases n,
{
    if n < 8 {
        be_word(key, (4 * n) as int)
    } else if n % 8 == 0 {
        enc_key_word(key, (n - 8) as nat) ^ rot_sub_word(enc_key_word(key, (n - 1) as nat)) ^ RCON[(
        n / 8 - 1) as int]
    } else if n % 8 == 4 {
        enc_key_word(key, (n - 8) as nat) ^ sub_word(enc_key_word(key, (n - 1) as nat))
    } else {
        enc_key_word(key, (n - 8) as nat) ^ enc_key_word(key, (n - 1) as nat)
    }
}

/// Inverse MixColumns of a round key word, through the tables.
pub open spec fn inv_mix(w: u32) -> u32 {
    TD0[(TE4[(w >> 24u32) as int] & 0xff) as int] ^ TD1[(TE4[((w >> 16u32) & 0xff) as int] & 0xff) as int]
        ^ TD2[(TE4[((w >> 8u32) & 0xff) as int] & 0xff) as int] ^ TD3[(TE4[(w & 0xff) as int] & 0xff) as int]
}

/// Word `n` of the decryption key schedule: the round keys in reverse order,
/// those of the inner rounds passed through inverse MixColumns.
pub open spec fn dec_key_word(key: Seq<u8>, n: nat) -> u32 {
    let r = n / 4;
    let w = enc_key_word(key, (4 * (14 - r) + n % 4) as nat);
    if r == 0 || r == 14 {
        w
    } else {
        inv_mix(w)
    }
}

pub open spec fn td_mix(a: u32, b: u32, c: u32, d: u32, k: u32) -> u32 {
    TD0[(a >> 24u32) as int] ^ TD1[((b >> 16u32) & 0xff) as int] ^ TD2[((c >> 8u32) & 0xff) as int]
        ^ TD3[(d & 0xff) as int] ^ k
}

pub open spec fn td_last(a: u32, b: u32, c: u32, d: u32, k: u32) -> u32 {
    (TD4[(a >> 24u32) as int] & 0xff000000) ^ (TD4[((b >> 16u32) & 0xff) as int] & 0xff0000) ^ (
    TD4[((c >> 8u32) & 0xff) as int] & 0xff00) ^ (TD4[(d & 0xff) as int] & 0xff) ^ k
}

pub struct State {
    pub s0: u32,
    pub s1: u32,
    pub s2: u32,
    pub s3: u32,
}

/// One inner decryption round with the round keys `4r..4r+4`.
pub open spec fn dec_round(s: State, rk: Seq<u32>, r: int) -> State {
    State {
        s0: td_mix(s.s0, s.s3, s.s2, s.s1, rk[4 * r]),
        s1: td_mix(s.s1, s.s0, s.s3, s.s2, rk[4 * r + 1]),
        s2: td_mix(s.s2, s.s1, s.s0, s.s3, rk[4 * r + 2]),
        s3: td_mix(s.s3, s.s2, s.s1, s.s0, rk[4 * r + 3]),
    }
}

/// The state after the first `r` inner rounds of decrypting block `c`.
pub open spec fn dec_state(rk: Seq<u32>, c: Seq<u8>, r: nat) -> State
    decreases r,
{
    if r == 0 {
        State {
            s0: be_word(c, 0) ^ rk[0],
            s1: be_word(c, 4) ^ rk[1],
            s2: be_word(c, 8) ^ rk[2],
            s3: be_word(c, 12) ^ rk[3],
        }
    } else {
        dec_round(dec_state(rk, c, (r - 1) as nat), rk, r as int)
    }
}

/// Number of inner rounds for a round count.
pub open spec fn inner_rounds(nrounds: int) -> nat {
    if nrounds > 12 {
        13
    } else if nrounds > 10 {
        11
    } else {
        9
    }
}

/// The decryption of block `c` with the decryption schedule `rk`.
pub open spec fn decrypt_block(rk: Seq<u32>, nrounds: int, c: Seq<u8>) -> Seq<u8> {
    let s = dec_state(rk, c, inner_rounds(nrounds));
    let o = 4 * nrounds;
    word_bytes(td_last(s.s0, s.s3, s.s2, s.s1, rk[o])) + word_bytes(
        td_last(s.s1, s.s0, s.s3, s.s2, rk[o + 1]),
    ) + word_bytes(td_last(s.s2, s.s1, s.s0, s.s3, rk[o + 2])) + word_bytes(
        td_last(s.s3, s.s2, s.s1, s.s0, rk[o + 3]),
    )
}

/// The decryption schedule of `key` as a sequence of 60 words.
#[verifier::opaque]
pub open spec fn dec_schedule(key: Seq<u8>) -> Seq<u32> {
    Seq::new(60, |n: int| dec_key_word(key, n as nat))
}

/// ECB decryption of `data` under `key`, block by block.
#[verifier::opaque]
pub open spec fn rijndael_ecb(key: Seq<u8>, data: Seq<u8>) -> Seq<u8> {
    Seq::new(
        data.len(),
        |i: int| decrypt_block(dec_schedule(key), 14, data.subrange(i / 16 * 16, i / 16 * 16 + 16))[i % 16],
    )
}

fn te4(i: u32) -> (r: u32)
    requires
        i < 256,
    ensures
        r == TE4[i as int],
{
    TE4[i as usize]
}

fn sub_word_exec(w: u32) -> (r: u32)
    ensures
        r == sub_word(w),
{
    assert((w >> 24u32) < 256 && ((w >> 16u32) & 0xff) < 256 && ((w >> 8u32) & 0xff) < 256 && (w
        & 0xff) < 256) by (bit_vector);
    (te4(w >> 24u32) & 0xff000000) ^ (te4((w >> 16u32) & 0xff) & 0xff0000) ^ (te4((w >> 8u32) & 0xff)
        & 0xff00) ^ (te4(w & 0xff) & 0xff)
}

fn rot_sub_word_exec(w: u32) -> (r: u32)
    ensures
        r == rot_sub_word(w),
{
    assert((w >> 24u32) < 256 && ((w >> 16u32) & 0xff) < 256 && ((w >> 8u32) & 0xff) < 256 && (w
        & 0xff) < 256) by (bit_vector);
    (te4((w >> 16u32) & 0xff) & 0xff000000) ^ (te4((w >> 8u32) & 0xff) & 0xff0000) ^ (te4(w & 0xff)
        & 0xff00) ^ (te4(w >> 24u32) & 0xff)
}

fn inv_mix_exec(w: u32) -> (r: u32)
    ensures
        r == inv_mix(w),
{
    assert((w >> 24u32) < 256 && ((w >> 16u32) & 0xff) < 256 && ((w >> 8u32) & 0xff) < 256 && (w
        & 0xff) < 256) by (bit_vector);
    let ta = te4(w >> 24u32);
    let tb = te4((w >> 16u32) & 0xff);
    let tc = te4((w >> 8u32) & 0xff);
    let td = te4(w & 0xff);
    let a = ta & 0xff;
    let b = tb & 0xff;
    let c = tc & 0xff;
    let d = td & 0xff;
    assert(a < 256 && b < 256 && c < 256 && d < 256) by (bit_vector)
        requires
            a == ta & 0xff,
            b == tb & 0xff,
            c == tc & 0xff,
            d == td & 0xff,
    ;
    TD0[a as usize] ^ TD1[b as usize] ^ TD2[c as usize] ^ TD3[d as usize]
}

fn td_mix_exec(a: u32, b: u32, c: u32, d: u32, k: u32) -> (r: u32)
    ensures
        r == td_mix(a, b, c, d, k),
{
    assert((a >> 24u32) < 256 && ((b >> 16u32) & 0xff) < 256 && ((c >> 8u32) & 0xff) < 256 && (d
        & 0xff) < 256) by (bit_vector);
    TD0[(a >> 24u32) as usize] ^ TD1[((b >> 16u32) & 0xff) as usize] ^ TD2[((c >> 8u32) & 0xff) as usize]
        ^ TD3[(d & 0xff) as usize] ^ k
}

fn td_last_exec(a: u32, b: u32, c: u32, d: u32, k: u32) -> (r: u32)
    ensures
        r == td_last(a, b, c, d, k),
{
    assert((a >> 24u32) < 256 && ((b >> 16u32) & 0xff) < 256 && ((c >> 8u32) & 0xff) < 256 && (d
        & 0xff) < 256) by (bit_vector);
    (TD4[(a >> 24u32) as usize] & 0xff000000) ^ (TD4[((b >> 16u32) & 0xff) as usize] & 0xff0000) ^ (
    TD4[((c >> 8u32) & 0xff) as usize] & 0xff00) ^ (TD4[(d & 0xff) as usize] & 0xff) ^ k
}

fn be_word_exec(s: &[u8], p: usize) -> (r: u32)
    requires
        p + 4 <= s@.len(),
    ensures
        r == be_word(s@, p as int),
{
    s[p] as u32 * 16777216 + s[p + 1] as u32 * 65536 + s[p + 2] as u32 * 256 + s[p + 3] as u32
}

/// Fills the first 60 words of `rk` with the AES-256 key schedule of `key` and
/// returns the number of rounds.
pub fn rijndael_setup_encrypt(rk: &mut [u32], key: &[u8]) -> (r: i32)
    requires
        old(rk)@.len() >= 60,
        key@.len() >= 32,
    ensures
        r == 14,
        final(rk)@.len() == old(rk)@.len(),
        forall|n: int| 0 <= n < 60 ==> #[trigger] final(rk)@[n] == enc_key_word(key@, n as nat),
        forall|n: int| 60 <= n < old(rk)@.len() ==> #[trigger] final(rk)@[n] == old(rk)@[n],
{
    let ghost k = key@;
    let ghost orig = rk@;
    let mut e: usize = 0;
    while e < 8
        invariant
            0 <= e <= 8,
            k == key@,
            key@.len() >= 32,
            rk@.len() == orig.len(),
            orig.len() >= 60,
            forall|n: int| 0 <= n < e ==> #[trigger] rk@[n] == enc_key_word(k, n as nat),
            forall|n: int| 60 <= n < orig.len() ==> #[trigger] rk@[n] == orig[n],
        decreases 8 - e,
    {
        rk[e] = be_word_exec(key, 4 * e);
        e = e + 1;
    }
    let mut n: usize = 8;
    while n < 60
        invariant
            8 <= n <= 60,
            k == key@,
            rk@.len() == orig.len(),
            orig.len() >= 60,
            forall|m: int| 0 <= m < n ==> #[trigger] rk@[m] == enc_key_word(k, m as nat),
            forall|m: int| 60 <= m < orig.len() ==> #[trigger] rk@[m] == orig[m],
        decreases 60 - n,
    {
        let temp = rk[n - 1];
        let prev = rk[n - 8];
        let ghost g: nat = n as nat;
        let next = if n % 8 == 0 {
            prev ^ rot_sub_word_exec(temp) ^ RCON[n / 8 - 1]
        } else if n % 8 == 4 {
            prev ^ sub_word_exec(temp)
        } else {
            prev ^ temp
        };
        assert(next == enc_key_word(k, g));
        rk[n] = next;
        n = n + 1;
    }
    14
}

/// The position in the encryption schedule of word `m` of the decryption
/// schedule: round keys in reverse order, words in a round in order.
pub open spec fn rev_index(m: int) -> int {
    4 * (14 - m / 4) + m % 4
}

proof fn lemma_rev_quad(i: int)
    requires
        0 <= i <= 56,
        i % 4 == 0,
    ensures
        rev_index(i) == 56 - i,
        rev_index(i + 1) == 57 - i,
        rev_index(i + 2) == 58 - i,
        rev_index(i + 3) == 59 - i,
        (i + 1) / 4 == i / 4,
        (i + 2) / 4 == i / 4,
        (i + 3) / 4 == i / 4,
{
}

proof fn lemma_rev_range(m: int)
    requires
        0 <= m < 60,
    ensures
        0 <= rev_index(m) < 60,
        rev_index(rev_index(m)) == m,
        (m / 4 == 0) == (m < 4),
        (m / 4 == 14) == (m >= 56),
{
}

/// Fills the first 60 words of `rk` with the AES-256 decryption key schedule of
/// `key` and returns the number of rounds.
pub fn rijndael_setup_decrypt(rk: &mut [u32], key: &[u8]) -> (r: i32)
    requires
        old(rk)@.len() >= 60,
        key@.len() >= 32,
    ensures
        r == 14,
        final(rk)@.len() == old(rk)@.len(),
        forall|n: int| 0 <= n < 60 ==> #[trigger] final(rk)@[n] == dec_key_word(key@, n as nat),
        forall|n: int| 60 <= n < old(rk)@.len() ==> #[trigger] final(rk)@[n] == old(rk)@[n],
{
    let nrounds = rijndael_setup_encrypt(rk, key);
    let ghost e = rk@;
    let ghost orig = old(rk)@;
    let mut i: usize = 0;
    let mut j: usize = 56;
    while i < j
        invariant
            i % 4 == 0,
            j == 56 - i,
            i <= 28,
            rk@.len() == e.len(),
            e.len() == orig.len(),
            e.len() >= 60,
            forall|m: int| 0 <= m < i ==> #[trigger] rk@[m] == e[rev_index(m)],
            forall|m: int| 60 - i <= m < 60 ==> #[trigger] rk@[m] == e[rev_index(m)],
            forall|m: int| i <= m < 60 - i ==> #[trigger] rk@[m] == e[m],
            forall|m: int| 60 <= m < e.len() ==> #[trigger] rk@[m] == e[m],
        decreases j - i,
    {
        proof {
            lemma_rev_quad(i as int);
            lemma_rev_quad(j as int);
        }
        let temp = rk[i];
        rk[i] = rk[j];
        rk[j] = temp;
        let temp = rk[i + 1];
        rk[i + 1] = rk[j + 1];
        rk[j + 1] = temp;
        let temp = rk[i + 2];
        rk[i + 2] = rk[j + 2];
        rk[j + 2] = temp;
        let temp = rk[i + 3];
        rk[i + 3] = rk[j + 3];
        rk[j + 3] = temp;
        i = i + 4;
        j = j - 4;
    }
    proof {
        lemma_rev_quad(28);
    }
    assert forall|m: int| 0 <= m < 60 implies #[trigger] rk@[m] == e[rev_index(m)] by {
        if 28 <= m < 32 {
            lemma_rev_quad(28);
        }
    }
    let mut r: usize = 1;
    while r < 14
        invariant
            1 <= r <= 14,
            rk@.len() == e.len(),
            e.len() >= 60,
            forall|m: int|
                0 <= m < 60 ==> #[trigger] rk@[m] == (if 4 <= m < 4 * r {
                    inv_mix(e[rev_index(m)])
                } else {
                    e[rev_index(m)]
                }),
            forall|m: int| 60 <= m < e.len() ==> #[trigger] rk@[m] == e[m],
        decreases 14 - r,
    {
        let o = 4 * r;
        rk[o] = inv_mix_exec(rk[o]);
        rk[o + 1] = inv_mix_exec(rk[o + 1]);
        rk[o + 2] = inv_mix_exec(rk[o + 2]);
        rk[o + 3] = inv_mix_exec(rk[o + 3]);
        r = r + 1;
    }
    assert forall|n: int| 0 <= n < 60 implies #[trigger] rk@[n] == dec_key_word(key@, n as nat) by {
        lemma_rev_range(n);
        assert(e[rev_index(n)] == enc_key_word(key@, rev_index(n) as nat));
    }
    nrounds
}

fn put_word(out: &mut [u8], p: usize, w: u32)
    requires
        p + 4 <= old(out)@.len(),
    ensures
        final(out)@.len() == old(out)@.len(),
        final(out)@.subrange(p as int, p + 4) == word_bytes(w),
        forall|i: int|
            0 <= i < old(out)@.len() && !(p <= i < p + 4) ==> #[trigger] final(out)@[i] == old(out)@[i],
{
    out[p] = (w >> 24u32) as u8;
    out[p + 1] = ((w >> 16u32) & 0xff) as u8;
    out[p + 2] = ((w >> 8u32) & 0xff) as u8;
    out[p + 3] = (w & 0xff) as u8;
    assert(out@.subrange(p as int, p + 4) =~= word_bytes(w));
}

/// Decrypts the 16-byte block at the start of `ciphertext` with the decryption
/// schedule `rk` of `nrounds` rounds into the first 16 bytes of `plaintext`.
pub fn rijndael_decrypt(rk: &[u32], nrounds: i32, ciphertext: &[u8], plaintext: &mut [u8])
    requires
        0 <= nrounds,
        4 * nrounds + 4 <= rk@.len(),
        4 * inner_rounds(nrounds as int) + 4 <= rk@.len(),
        ciphertext@.len() >= 16,
        old(plaintext)@.len() >= 16,
    ensures
        final(plaintext)@.len() == old(plaintext)@.len(),
        final(plaintext)@.subrange(0, 16) == decrypt_block(rk@, nrounds as int, ciphertext@),
        forall|i: int| 16 <= i < old(plaintext)@.len() ==> #[trigger] final(plaintext)@[i] == old(plaintext)@[i],
{
    let mut s0 = be_word_exec(ciphertext, 0) ^ rk[0];
    let mut s1 = be_word_exec(ciphertext, 4) ^ rk[1];
    let mut s2 = be_word_exec(ciphertext, 8) ^ rk[2];
    let mut s3 = be_word_exec(ciphertext, 12) ^ rk[3];
    let inner: usize = if nrounds > 12 {
        13
    } else if nrounds > 10 {
        11
    } else {
        9
    };
    let mut r: usize = 1;
    while r <= inner
        invariant
            1 <= r <= inner + 1,
            inner == inner_rounds(nrounds as int),
            4 * inner + 4 <= rk@.len(),
            (State { s0, s1, s2, s3 }) == dec_state(rk@, ciphertext@, (r - 1) as nat),
        decreases inner + 1 - r,
    {
        let o = 4 * r;
        let n0 = td_mix_exec(s0, s3, s2, s1, rk[o]);
        let n1 = td_mix_exec(s1, s0, s3, s2, rk[o + 1]);
        let n2 = td_mix_exec(s2, s1, s0, s3, rk[o + 2]);
        let n3 = td_mix_exec(s3, s2, s1, s0, rk[o + 3]);
        s0 = n0;
        s1 = n1;
        s2 = n2;
        s3 = n3;
        r = r + 1;
    }
    let o = (nrounds as usize) * 4;
    let w0 = td_last_exec(s0, s3, s2, s1, rk[o]);
    let w1 = td_last_exec(s1, s0, s3, s2, rk[o + 1]);
    let w2 = td_last_exec(s2, s1, s0, s3, rk[o + 2]);
    let w3 = td_last_exec(s3, s2, s1, s0, rk[o + 3]);
    let ghost before = plaintext@;
    put_word(plaintext, 0, w0);
    let ghost p0 = plaintext@;
    put_word(plaintext, 4, w1);
    let ghost p1 = plaintext@;
    put_word(plaintext, 8, w2);
    let ghost p2 = plaintext@;
    put_word(plaintext, 12, w3);
    proof {
        let out = plaintext@.subrange(0, 16);
        let expect = decrypt_block(rk@, nrounds as int, ciphertext@);
        assert forall|i: int| 0 <= i < 16 implies out[i] == expect[i] by {
            if i < 4 {
                assert(p0.subrange(0, 4)[i] == p0[i]);
            } else if i < 8 {
                assert(p1.subrange(4, 8)[i - 4] == p1[i]);
            } else if i < 12 {
                assert(p2.subrange(8, 12)[i - 8] == p2[i]);
            } else {
                assert(plaintext@.subrange(12, 16)[i - 12] == plaintext@[i]);
            }
        }
        assert(out =~= expect);
    }
}

proof fn lemma_ecb_block(key: Seq<u8>, data: Seq<u8>, i: int)
    requires
        0 <= i,
        16 * i + 16 <= data.len(),
    ensures
        rijndael_ecb(key, data).subrange(16 * i, 16 * i + 16) == decrypt_block(
            dec_schedule(key),
            14,
            data.subrange(16 * i, 16 * i + 16),
        ).subrange(0, 16),
{
    reveal(rijndael_ecb);
    let e = rijndael_ecb(key, data);
    let d = decrypt_block(dec_schedule(key), 14, data.subrange(16 * i, 16 * i + 16));
    assert forall|c: int| 0 <= c < 16 implies e.subrange(16 * i, 16 * i + 16)[c] == d.subrange(0, 16)[c] by {
        assert((16 * i + c) / 16 == i);
        assert((16 * i + c) % 16 == c);
    }
    assert(e.subrange(16 * i, 16 * i + 16) =~= d.subrange(0, 16));
}

proof fn lemma_len_blocks(len: int)
    requires
        0 <= len,
        len % 16 == 0,
    ensures
        16 * (len / 16) == len,
{
}

fn append16(out: &mut Vec<u8>, block: &[u8])
    requires
        block@.len() >= 16,
    ensures
        final(out)@ == old(out)@ + block@.subrange(0, 16),
{
    let mut c: usize = 0;
    while c < 16
        invariant
            c <= 16,
            block@.len() >= 16,
            out@ == old(out)@ + block@.subrange(0, c as int),
        decreases 16 - c,
    {
        out.push(block[c]);
        c = c + 1;
        assert(out@ =~= old(out)@ + block@.subrange(0, c as int));
    }
}

/// Decrypts `ciphertext` with the 32-byte `key`, each 16-byte block on its own.
pub fn rijndael_decrypt_buf(ciphertext: &[u8], key: &[u8]) -> (r: Vec<u8>)
    requires
        key@.len() == 32,
        ciphertext@.len() % 16 == 0,
    ensures
        r@ == rijndael_ecb(key@, ciphertext@),
{
    let mut rk: Vec<u32> = Vec::new();
    while rk.len() < 60
        invariant
            rk@.len() <= 60,
        decreases 60 - rk.len(),
    {
        rk.push(0);
    }
    let nrounds = rijndael_setup_decrypt(rk.as_mut_slice(), key);
    assert(rk@ =~= dec_schedule(key@)) by {
        reveal(dec_schedule);
    }
    let n = ciphertext.len() / 16;
    proof {
        lemma_len_blocks(ciphertext@.len() as int);
    }
    let mut plaintext: Vec<u8> = Vec::new();
    let mut block: Vec<u8> = Vec::new();
    while block.len() < 16
        invariant
            block@.len() <= 16,
        decreases 16 - block.len(),
    {
        block.push(0);
    }
    let ghost expect = rijndael_ecb(key@, ciphertext@);
    assert(expect.len() == ciphertext@.len()) by {
        reveal(rijndael_ecb);
    }
    let mut i: usize = 0;
    while i < n
        invariant
            i <= n,
            16 * n == ciphertext@.len(),
            ciphertext@.len() <= usize::MAX,
            nrounds == 14,
            rk@ == dec_schedule(key@),
            rk@.len() == 60,
            block@.len() == 16,
            expect == rijndael_ecb(key@, ciphertext@),
            expect.len() == ciphertext@.len(),
            plaintext@ == expect.subrange(0, 16 * i),
        decreases n - i,
    {
        let start = i * 16;
        let end = start + 16;
        let cblock = slice_range(ciphertext, start, end);
        rijndael_decrypt(rk.as_slice(), nrounds, cblock, block.as_mut_slice());
        append16(&mut plaintext, block.as_slice());
        proof {
            lemma_ecb_block(key@, ciphertext@, i as int);
            assert(expect.subrange(0, 16 * (i + 1)) =~= expect.subrange(0, 16 * i) + expect.subrange(
                16 * i,
                16 * i + 16,
            ));
        }
        i = i + 1;
    }
    assert(plaintext@ =~= expect);
    plaintext
}

fn slice_range(s: &[u8], lo: usize, hi: usize) -> (r: &[u8])
    requires
        lo <= hi <= s@.len(),
    ensures
        r@ == s@.subrange(lo as int, hi as int),
{
    &s[lo..hi]
}

pub(crate) proof fn lemma_shift_blocks(q: int, j: int, n: int)
    by (nonlinear_arith)
    requires
        0 <= q,
        0 <= j < n,
        n % 16 == 0,
    ensures
        j / 16 * 16 + 16 <= n,
        (16 * q + j) / 16 * 16 == 16 * q + j / 16 * 16,
        (16 * q + j) % 16 == j % 16,
{
}

/// ECB decryption works block by block: decrypting two block-aligned pieces one
/// after the other gives the decryption of the whole.
pub proof fn lemma_rijndael_ecb_concat(key: Seq<u8>, a: Seq<u8>, b: Seq<u8>)
    requires
        a.len() % 16 == 0,
        b.len() % 16 == 0,
    ensures
        rijndael_ecb(key, a + b) == rijndael_ecb(key, a) + rijndael_ecb(key, b),
{
    reveal(rijndael_ecb);
    let whole = rijndael_ecb(key, a + b);
    let parts = rijndael_ecb(key, a) + rijndael_ecb(key, b);
    let q: int = (a.len() / 16) as int;
    assert(16 * q == a.len());
    assert forall|i: int| 0 <= i < whole.len() implies whole[i] == parts[i] by {
        let lo = i / 16 * 16;
        if i < a.len() {
            assert(lo + 16 <= a.len());
            assert((a + b).subrange(lo, lo + 16) =~= a.subrange(lo, lo + 16));
        } else {
            let j: int = i - a.len();
            lemma_shift_blocks(q, j, b.len() as int);
            assert(lo == a.len() + j / 16 * 16);
            assert((a + b).subrange(lo, lo + 16) =~= b.subrange(j / 16 * 16, j / 16 * 16 + 16));
        }
    }
    assert(whole =~= parts);
}

} // verus!

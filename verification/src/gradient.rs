//! Lattice vertices and their deterministic gradient directions.
//!
//! A vertex `(i0, i1)` (column, row) is hashed to a byte, and the byte
//! picks one of 256 unit directions: the byte is read as an angle
//! `a = (b / 255) * 2 pi`, and the direction is `(cos a, sin a)` rounded
//! to fixed point. The table below holds those rounded pairs, so the
//! whole pipeline stays in exact integer arithmetic.

use crate::hashing::{hash, hash_spec, rotl, rotl_spec};
use crate::math::ONE;
use vstd::prelude::*;

verus! {

/// A two-dimensional vector in fixed-point units of `1 / ONE`.
pub struct Vec2 {
    pub x: i64,
    pub y: i64,
}

impl Vec2 {
    /// Create a 2d vector from literal fixed-point components.
    pub fn new(x: i64, y: i64) -> (v: Vec2)
        ensures
            v.x == x,
            v.y == y,
    {
        Vec2 { x, y }
    }
}

/// A vertex of the noise lattice: `i0` counts lattice columns and `i1`
/// lattice rows.
pub struct Vertex {
    pub i0: usize,
    pub i1: usize,
}

/// The word fed to the mixing hash for a vertex: the column index or-ed
/// with the row index rotated into the upper half.
pub open spec fn vertex_key_spec(i0: int, i1: int) -> u32 {
    (i0 as u32) | rotl_spec(i1 as u32, 16)
}

/// The hash byte of a vertex.
pub open spec fn vertex_hash_spec(i0: int, i1: int) -> u8 {
    hash_spec(vertex_key_spec(i0, i1))
}

/// The fixed-point pair `(cos a, sin a)` for the angle `a = (b / 255) * 2 pi`,
/// each component rounded to the nearest multiple of `1 / ONE`.
#[verifier::opaque]
pub open spec fn grad_pair_spec(b: u8) -> (int, int) {
    match b {
        0u8 => (65536int, 0int),
        1u8 => (65516int, 1615int),
        2u8 => (65456int, 3228int),
        3u8 => (65357int, 4840int),
        4u8 => (65218int, 6449int),
        5u8 => (65039int, 8054int),
        6u8 => (64821int, 9654int),
        7u8 => (64564int, 11248int),
        8u8 => (64267int, 12835int),
        9u8 => (63931int, 14414int),
        10u8 => (63557int, 15985int),
        11u8 => (63143int, 17546int),
        12u8 => (62692int, 19097int),
        13u8 => (62203int, 20635int),
        14u8 => (61675int, 22162int),
        15u8 => (61111int, 23674int),
        16u8 => (60509int, 25173int),
        17u8 => (59870int, 26656int),
        18u8 => (59195int, 28123int),
        19u8 => (58484int, 29573int),
        20u8 => (57738int, 31005int),
        21u8 => (56957int, 32418int),
        22u8 => (56141int, 33811int),
        23u8 => (55291int, 35184int),
        24u8 => (54407int, 36536int),
        25u8 => (53490int, 37865int),
        26u8 => (52541int, 39171int),
        27u8 => (51560int, 40454int),
        28u8 => (50548int, 41712int),
        29u8 => (49505int, 42945int),
        30u8 => (48432int, 44151int),
        31u8 => (47329int, 45331int),
        32u8 => (46198int, 46483int),
        33u8 => (45039int, 47608int),
        34u8 => (43852int, 48703int),
        35u8 => (42639int, 49768int),
        36u8 => (41400int, 50804int),
        37u8 => (40136int, 51808int),
        38u8 => (38847int, 52781int),
        39u8 => (37535int, 53723int),
        40u8 => (36200int, 54631int),
        41u8 => (34843int, 55506int),
        42u8 => (33465int, 56348int),
        43u8 => (32066int, 57155int),
        44u8 => (30648int, 57928int),
        45u8 => (29212int, 58665int),
        46u8 => (27758int, 59367int),
        47u8 => (26287int, 60033int),
        48u8 => (24800int, 60663int),
        49u8 => (23297int, 61255int),
        50u8 => (21781int, 61811int),
        51u8 => (20252int, 62328int),
        52u8 => (18710int, 62808int),
        53u8 => (17157int, 63250int),
        54u8 => (15593int, 63654int),
        55u8 => (14020int, 64019int),
        56u8 => (12439int, 64345int),
        57u8 => (10850int, 64632int),
        58u8 => (9254int, 64879int),
        59u8 => (7653int, 65088int),
        60u8 => (6047int, 65256int),
        61u8 => (4437int, 65386int),
        62u8 => (2825int, 65475int),
        63u8 => (1211int, 65525int),
        64u8 => (-404int, 65535int),
        65u8 => (-2018int, 65505int),
        66u8 => (-3631int, 65435int),
        67u8 => (-5243int, 65326int),
        68u8 => (-6850int, 65177int),
        69u8 => (-8454int, 64988int),
        70u8 => (-10053int, 64760int),
        71u8 => (-11645int, 64493int),
        72u8 => (-13231int, 64187int),
        73u8 => (-14808int, 63841int),
        74u8 => (-16376int, 63457int),
        75u8 => (-17935int, 63034int),
        76u8 => (-19482int, 62573int),
        77u8 => (-21018int, 62074int),
        78u8 => (-22541int, 61538int),
        79u8 => (-24050int, 60964int),
        80u8 => (-25545int, 60352int),
        81u8 => (-27024int, 59705int),
        82u8 => (-28487int, 59021int),
        83u8 => (-29932int, 58301int),
        84u8 => (-31360int, 57546int),
        85u8 => (-32768int, 56756int),
        86u8 => (-34156int, 55931int),
        87u8 => (-35524int, 55073int),
        88u8 => (-36870int, 54181int),
        89u8 => (-38194int, 53256int),
        90u8 => (-39494int, 52299int),
        91u8 => (-40771int, 51310int),
        92u8 => (-42023int, 50290int),
        93u8 => (-43249int, 49239int),
        94u8 => (-44449int, 48159int),
        95u8 => (-45622int, 47049int),
        96u8 => (-46767int, 45911int),
        97u8 => (-47884int, 44745int),
        98u8 => (-48972int, 43551int),
        99u8 => (-50030int, 42332int),
        100u8 => (-51058int, 41086int),
        101u8 => (-52055int, 39816int),
        102u8 => (-53020int, 38521int),
        103u8 => (-53953int, 37203int),
        104u8 => (-54853int, 35863int),
        105u8 => (-55720int, 34500int),
        106u8 => (-56553int, 33117int),
        107u8 => (-57352int, 31714int),
        108u8 => (-58116int, 30291int),
        109u8 => (-58844int, 28850int),
        110u8 => (-59537int, 27391int),
        111u8 => (-60194int, 25916int),
        112u8 => (-60814int, 24425int),
        113u8 => (-61398int, 22920int),
        114u8 => (-61944int, 21400int),
        115u8 => (-62452int, 19867int),
        116u8 => (-62923int, 18323int),
        117u8 => (-63355int, 16767int),
        118u8 => (-63749int, 15201int),
        119u8 => (-64104int, 13626int),
        120u8 => (-64420int, 12042int),
        121u8 => (-64697int, 10451int),
        122u8 => (-64935int, 8854int),
        123u8 => (-65134int, 7252int),
        124u8 => (-65292int, 5645int),
        125u8 => (-65412int, 4034int),
        126u8 => (-65491int, 2422int),
        127u8 => (-65531int, 807int),
        128u8 => (-65531int, -807int),
        129u8 => (-65491int, -2422int),
        130u8 => (-65412int, -4034int),
        131u8 => (-65292int, -5645int),
        132u8 => (-65134int, -7252int),
        133u8 => (-64935int, -8854int),
        134u8 => (-64697int, -10451int),
        135u8 => (-64420int, -12042int),
        136u8 => (-64104int, -13626int),
        137u8 => (-63749int, -15201int),
        138u8 => (-63355int, -16767int),
        139u8 => (-62923int, -18323int),
        140u8 => (-62452int, -19867int),
        141u8 => (-61944int, -21400int),
        142u8 => (-61398int, -22920int),
        143u8 => (-60814int, -24425int),
        144u8 => (-60194int, -25916int),
        145u8 => (-59537int, -27391int),
        146u8 => (-58844int, -28850int),
        147u8 => (-58116int, -30291int),
        148u8 => (-57352int, -31714int),
        149u8 => (-56553int, -33117int),
        150u8 => (-55720int, -34500int),
        151u8 => (-54853int, -35863int),
        152u8 => (-53953int, -37203int),
        153u8 => (-53020int, -38521int),
        154u8 => (-52055int, -39816int),
        155u8 => (-51058int, -41086int),
        156u8 => (-50030int, -42332int),
        157u8 => (-48972int, -43551int),
        158u8 => (-47884int, -44745int),
        159u8 => (-46767int, -45911int),
        160u8 => (-45622int, -47049int),
        161u8 => (-44449int, -48159int),
        162u8 => (-43249int, -49239int),
        163u8 => (-42023int, -50290int),
        164u8 => (-40771int, -51310int),
        165u8 => (-39494int, -52299int),
        166u8 => (-38194int, -53256int),
        167u8 => (-36870int, -54181int),
        168u8 => (-35524int, -55073int),
        169u8 => (-34156int, -55931int),
        170u8 => (-32768int, -56756int),
        171u8 => (-31360int, -57546int),
        172u8 => (-29932int, -58301int),
        173u8 => (-28487int, -59021int),
        174u8 => (-27024int, -59705int),
        175u8 => (-25545int, -60352int),
        176u8 => (-24050int, -60964int),
        177u8 => (-22541int, -61538int),
        178u8 => (-21018int, -62074int),
        179u8 => (-19482int, -62573int),
        180u8 => (-17935int, -63034int),
        181u8 => (-16376int, -63457int),
        182u8 => (-14808int, -63841int),
        183u8 => (-13231int, -64187int),
        184u8 => (-11645int, -64493int),
        185u8 => (-10053int, -64760int),
        186u8 => (-8454int, -64988int),
        187u8 => (-6850int, -65177int),
        188u8 => (-5243int, -65326int),
        189u8 => (-3631int, -65435int),
        190u8 => (-2018int, -65505int),
        191u8 => (-404int, -65535int),
        192u8 => (1211int, -65525int),
        193u8 => (2825int, -65475int),
        194u8 => (4437int, -65386int),
        195u8 => (6047int, -65256int),
        196u8 => (7653int, -65088int),
        197u8 => (9254int, -64879int),
        198u8 => (10850int, -64632int),
        199u8 => (12439int, -64345int),
        200u8 => (14020int, -64019int),
        201u8 => (15593int, -63654int),
        202u8 => (17157int, -63250int),
        203u8 => (18710int, -62808int),
        204u8 => (20252int, -62328int),
        205u8 => (21781int, -61811int),
        206u8 => (23297int, -61255int),
        207u8 => (24800int, -60663int),
        208u8 => (26287int, -60033int),
        209u8 => (27758int, -59367int),
        210u8 => (29212int, -58665int),
        211u8 => (30648int, -57928int),
        212u8 => (32066int, -57155int),
        213u8 => (33465int, -56348int),
        214u8 => (34843int, -55506int),
        215u8 => (36200int, -54631int),
        216u8 => (37535int, -53723int),
        217u8 => (38847int, -52781int),
        218u8 => (40136int, -51808int),
        219u8 => (41400int, -50804int),
        220u8 => (42639int, -49768int),
        221u8 => (43852int, -48703int),
        222u8 => (45039int, -47608int),
        223u8 => (46198int, -46483int),
        224u8 => (47329int, -45331int),
        225u8 => (48432int, -44151int),
        226u8 => (49505int, -42945int),
        227u8 => (50548int, -41712int),
        228u8 => (51560int, -40454int),
        229u8 => (52541int, -39171int),
        230u8 => (53490int, -37865int),
        231u8 => (54407int, -36536int),
        232u8 => (55291int, -35184int),
        233u8 => (56141int, -33811int),
        234u8 => (56957int, -32418int),
        235u8 => (57738int, -31005int),
        236u8 => (58484int, -29573int),
        237u8 => (59195int, -28123int),
        238u8 => (59870int, -26656int),
        239u8 => (60509int, -25173int),
        240u8 => (61111int, -23674int),
        241u8 => (61675int, -22162int),
        242u8 => (62203int, -20635int),
        243u8 => (62692int, -19097int),
        244u8 => (63143int, -17546int),
        245u8 => (63557int, -15985int),
        246u8 => (63931int, -14414int),
        247u8 => (64267int, -12835int),
        248u8 => (64564int, -11248int),
        249u8 => (64821int, -9654int),
        250u8 => (65039int, -8054int),
        251u8 => (65218int, -6449int),
        252u8 => (65357int, -4840int),
        253u8 => (65456int, -3228int),
        254u8 => (65516int, -1615int),
        _ => (65536int, 0int),
    }
}

/// The gradient direction at a vertex.
pub open spec fn gradient_spec(i0: int, i1: int) -> (int, int) {
    grad_pair_spec(vertex_hash_spec(i0, i1))
}

/// Every table entry has both components in `[-ONE, ONE]` and a squared
/// magnitude within `2 * ONE` of `ONE * ONE`, i.e. the direction has unit
/// length up to one part in about thirty thousand.
pub proof fn lemma_grad_pair_unit(b: u8)
    ensures
        -(ONE as int) <= grad_pair_spec(b).0 <= ONE as int,
        -(ONE as int) <= grad_pair_spec(b).1 <= ONE as int,
        -2 * (ONE as int) <= grad_pair_spec(b).0 * grad_pair_spec(b).0 + grad_pair_spec(b).1
            * grad_pair_spec(b).1 - (ONE as int) * (ONE as int) <= 2 * (ONE as int),
{
    reveal(grad_pair_spec);
}

/// The gradient at any lattice vertex is a unit vector up to the table's
/// rounding tolerance, and depends on nothing but the vertex coordinates.
pub proof fn lemma_gradient_unit(i0: int, i1: int)
    ensures
        -(ONE as int) <= gradient_spec(i0, i1).0 <= ONE as int,
        -(ONE as int) <= gradient_spec(i0, i1).1 <= ONE as int,
        -2 * (ONE as int) <= gradient_spec(i0, i1).0 * gradient_spec(i0, i1).0 + gradient_spec(
            i0, i1).1 * gradient_spec(i0, i1).1 - (ONE as int) * (ONE as int) <= 2 * (ONE as int),
{
    lemma_grad_pair_unit(vertex_hash_spec(i0, i1));
}

/// The unit direction a hash byte picks, in fixed point.
pub fn grad_components(b: u8) -> (g: (i64, i64))
    ensures
        g.0 as int == grad_pair_spec(b).0,
        g.1 as int == grad_pair_spec(b).1,
{
    proof {
        reveal(grad_pair_spec);
    }
    match b {
        0u8 => (65536i64, 0i64),
        1u8 => (65516i64, 1615i64),
        2u8 => (65456i64, 3228i64),
        3u8 => (65357i64, 4840i64),
        4u8 => (65218i64, 6449i64),
        5u8 => (65039i64, 8054i64),
        6u8 => (64821i64, 9654i64),
        7u8 => (64564i64, 11248i64),
        8u8 => (64267i64, 12835i64),
        9u8 => (63931i64, 14414i64),
        10u8 => (63557i64, 15985i64),
        11u8 => (63143i64, 17546i64),
        12u8 => (62692i64, 19097i64),
        13u8 => (62203i64, 20635i64),
        14u8 => (61675i64, 22162i64),
        15u8 => (61111i64, 23674i64),
        16u8 => (60509i64, 25173i64),
        17u8 => (59870i64, 26656i64),
        18u8 => (59195i64, 28123i64),
        19u8 => (58484i64, 29573i64),
        20u8 => (57738i64, 31005i64),
        21u8 => (56957i64, 32418i64),
        22u8 => (56141i64, 33811i64),
        23u8 => (55291i64, 35184i64),
        24u8 => (54407i64, 36536i64),
        25u8 => (53490i64, 37865i64),
        26u8 => (52541i64, 39171i64),
        27u8 => (51560i64, 40454i64),
        28u8 => (50548i64, 41712i64),
        29u8 => (49505i64, 42945i64),
        30u8 => (48432i64, 44151i64),
        31u8 => (47329i64, 45331i64),
        32u8 => (46198i64, 46483i64),
        33u8 => (45039i64, 47608i64),
        34u8 => (43852i64, 48703i64),
        35u8 => (42639i64, 49768i64),
        36u8 => (41400i64, 50804i64),
        37u8 => (40136i64, 51808i64),
        38u8 => (38847i64, 52781i64),
        39u8 => (37535i64, 53723i64),
        40u8 => (36200i64, 54631i64),
        41u8 => (34843i64, 55506i64),
        42u8 => (33465i64, 56348i64),
        43u8 => (32066i64, 57155i64),
        44u8 => (30648i64, 57928i64),
        45u8 => (29212i64, 58665i64),
        46u8 => (27758i64, 59367i64),
        47u8 => (26287i64, 60033i64),
        48u8 => (24800i64, 60663i64),
        49u8 => (23297i64, 61255i64),
        50u8 => (21781i64, 61811i64),
        51u8 => (20252i64, 62328i64),
        52u8 => (18710i64, 62808i64),
        53u8 => (17157i64, 63250i64),
        54u8 => (15593i64, 63654i64),
        55u8 => (14020i64, 64019i64),
        56u8 => (12439i64, 64345i64),
        57u8 => (10850i64, 64632i64),
        58u8 => (9254i64, 64879i64),
        59u8 => (7653i64, 65088i64),
        60u8 => (6047i64, 65256i64),
        61u8 => (4437i64, 65386i64),
        62u8 => (2825i64, 65475i64),
        63u8 => (1211i64, 65525i64),
        64u8 => (-404i64, 65535i64),
        65u8 => (-2018i64, 65505i64),
        66u8 => (-3631i64, 65435i64),
        67u8 => (-5243i64, 65326i64),
        68u8 => (-6850i64, 65177i64),
        69u8 => (-8454i64, 64988i64),
        70u8 => (-10053i64, 64760i64),
        71u8 => (-11645i64, 64493i64),
        72u8 => (-13231i64, 64187i64),
        73u8 => (-14808i64, 63841i64),
        74u8 => (-16376i64, 63457i64),
        75u8 => (-17935i64, 63034i64),
        76u8 => (-19482i64, 62573i64),
        77u8 => (-21018i64, 62074i64),
        78u8 => (-22541i64, 61538i64),
        79u8 => (-24050i64, 60964i64),
        80u8 => (-25545i64, 60352i64),
        81u8 => (-27024i64, 59705i64),
        82u8 => (-28487i64, 59021i64),
        83u8 => (-29932i64, 58301i64),
        84u8 => (-31360i64, 57546i64),
        85u8 => (-32768i64, 56756i64),
        86u8 => (-34156i64, 55931i64),
        87u8 => (-35524i64, 55073i64),
        88u8 => (-36870i64, 54181i64),
        89u8 => (-38194i64, 53256i64),
        90u8 => (-39494i64, 52299i64),
        91u8 => (-40771i64, 51310i64),
        92u8 => (-42023i64, 50290i64),
        93u8 => (-43249i64, 49239i64),
        94u8 => (-44449i64, 48159i64),
        95u8 => (-45622i64, 47049i64),
        96u8 => (-46767i64, 45911i64),
        97u8 => (-47884i64, 44745i64),
        98u8 => (-48972i64, 43551i64),
        99u8 => (-50030i64, 42332i64),
        100u8 => (-51058i64, 41086i64),
        101u8 => (-52055i64, 39816i64),
        102u8 => (-53020i64, 38521i64),
        103u8 => (-53953i64, 37203i64),
        104u8 => (-54853i64, 35863i64),
        105u8 => (-55720i64, 34500i64),
        106u8 => (-56553i64, 33117i64),
        107u8 => (-57352i64, 31714i64),
        108u8 => (-58116i64, 30291i64),
        109u8 => (-58844i64, 28850i64),
        110u8 => (-59537i64, 27391i64),
        111u8 => (-60194i64, 25916i64),
        112u8 => (-60814i64, 24425i64),
        113u8 => (-61398i64, 22920i64),
        114u8 => (-61944i64, 21400i64),
        115u8 => (-62452i64, 19867i64),
        116u8 => (-62923i64, 18323i64),
        117u8 => (-63355i64, 16767i64),
        118u8 => (-63749i64, 15201i64),
        119u8 => (-64104i64, 13626i64),
        120u8 => (-64420i64, 12042i64),
        121u8 => (-64697i64, 10451i64),
        122u8 => (-64935i64, 8854i64),
        123u8 => (-65134i64, 7252i64),
        124u8 => (-65292i64, 5645i64),
        125u8 => (-65412i64, 4034i64),
        126u8 => (-65491i64, 2422i64),
        127u8 => (-65531i64, 807i64),
        128u8 => (-65531i64, -807i64),
        129u8 => (-65491i64, -2422i64),
        130u8 => (-65412i64, -4034i64),
        131u8 => (-65292i64, -5645i64),
        132u8 => (-65134i64, -7252i64),
        133u8 => (-64935i64, -8854i64),
        134u8 => (-64697i64, -10451i64),
        135u8 => (-64420i64, -12042i64),
        136u8 => (-64104i64, -13626i64),
        137u8 => (-63749i64, -15201i64),
        138u8 => (-63355i64, -16767i64),
        139u8 => (-62923i64, -18323i64),
        140u8 => (-62452i64, -19867i64),
        141u8 => (-61944i64, -21400i64),
        142u8 => (-61398i64, -22920i64),
        143u8 => (-60814i64, -24425i64),
        144u8 => (-60194i64, -25916i64),
        145u8 => (-59537i64, -27391i64),
        146u8 => (-58844i64, -28850i64),
        147u8 => (-58116i64, -30291i64),
        148u8 => (-57352i64, -31714i64),
        149u8 => (-56553i64, -33117i64),
        150u8 => (-55720i64, -34500i64),
        151u8 => (-54853i64, -35863i64),
        152u8 => (-53953i64, -37203i64),
        153u8 => (-53020i64, -38521i64),
        154u8 => (-52055i64, -39816i64),
        155u8 => (-51058i64, -41086i64),
        156u8 => (-50030i64, -42332i64),
        157u8 => (-48972i64, -43551i64),
        158u8 => (-47884i64, -44745i64),
        159u8 => (-46767i64, -45911i64),
        160u8 => (-45622i64, -47049i64),
        161u8 => (-44449i64, -48159i64),
        162u8 => (-43249i64, -49239i64),
        163u8 => (-42023i64, -50290i64),
        164u8 => (-40771i64, -51310i64),
        165u8 => (-39494i64, -52299i64),
        166u8 => (-38194i64, -53256i64),
        167u8 => (-36870i64, -54181i64),
        168u8 => (-35524i64, -55073i64),
        169u8 => (-34156i64, -55931i64),
        170u8 => (-32768i64, -56756i64),
        171u8 => (-31360i64, -57546i64),
        172u8 => (-29932i64, -58301i64),
        173u8 => (-28487i64, -59021i64),
        174u8 => (-27024i64, -59705i64),
        175u8 => (-25545i64, -60352i64),
        176u8 => (-24050i64, -60964i64),
        177u8 => (-22541i64, -61538i64),
        178u8 => (-21018i64, -62074i64),
        179u8 => (-19482i64, -62573i64),
        180u8 => (-17935i64, -63034i64),
        181u8 => (-16376i64, -63457i64),
        182u8 => (-14808i64, -63841i64),
        183u8 => (-13231i64, -64187i64),
        184u8 => (-11645i64, -64493i64),
        185u8 => (-10053i64, -64760i64),
        186u8 => (-8454i64, -64988i64),
        187u8 => (-6850i64, -65177i64),
        188u8 => (-5243i64, -65326i64),
        189u8 => (-3631i64, -65435i64),
        190u8 => (-2018i64, -65505i64),
        191u8 => (-404i64, -65535i64),
        192u8 => (1211i64, -65525i64),
        193u8 => (2825i64, -65475i64),
        194u8 => (4437i64, -65386i64),
        195u8 => (6047i64, -65256i64),
        196u8 => (7653i64, -65088i64),
        197u8 => (9254i64, -64879i64),
        198u8 => (10850i64, -64632i64),
        199u8 => (12439i64, -64345i64),
        200u8 => (14020i64, -64019i64),
        201u8 => (15593i64, -63654i64),
        202u8 => (17157i64, -63250i64),
        203u8 => (18710i64, -62808i64),
        204u8 => (20252i64, -62328i64),
        205u8 => (21781i64, -61811i64),
        206u8 => (23297i64, -61255i64),
        207u8 => (24800i64, -60663i64),
        208u8 => (26287i64, -60033i64),
        209u8 => (27758i64, -59367i64),
        210u8 => (29212i64, -58665i64),
        211u8 => (30648i64, -57928i64),
        212u8 => (32066i64, -57155i64),
        213u8 => (33465i64, -56348i64),
        214u8 => (34843i64, -55506i64),
        215u8 => (36200i64, -54631i64),
        216u8 => (37535i64, -53723i64),
        217u8 => (38847i64, -52781i64),
        218u8 => (40136i64, -51808i64),
        219u8 => (41400i64, -50804i64),
        220u8 => (42639i64, -49768i64),
        221u8 => (43852i64, -48703i64),
        222u8 => (45039i64, -47608i64),
        223u8 => (46198i64, -46483i64),
        224u8 => (47329i64, -45331i64),
        225u8 => (48432i64, -44151i64),
        226u8 => (49505i64, -42945i64),
        227u8 => (50548i64, -41712i64),
        228u8 => (51560i64, -40454i64),
        229u8 => (52541i64, -39171i64),
        230u8 => (53490i64, -37865i64),
        231u8 => (54407i64, -36536i64),
        232u8 => (55291i64, -35184i64),
        233u8 => (56141i64, -33811i64),
        234u8 => (56957i64, -32418i64),
        235u8 => (57738i64, -31005i64),
        236u8 => (58484i64, -29573i64),
        237u8 => (59195i64, -28123i64),
        238u8 => (59870i64, -26656i64),
        239u8 => (60509i64, -25173i64),
        240u8 => (61111i64, -23674i64),
        241u8 => (61675i64, -22162i64),
        242u8 => (62203i64, -20635i64),
        243u8 => (62692i64, -19097i64),
        244u8 => (63143i64, -17546i64),
        245u8 => (63557i64, -15985i64),
        246u8 => (63931i64, -14414i64),
        247u8 => (64267i64, -12835i64),
        248u8 => (64564i64, -11248i64),
        249u8 => (64821i64, -9654i64),
        250u8 => (65039i64, -8054i64),
        251u8 => (65218i64, -6449i64),
        252u8 => (65357i64, -4840i64),
        253u8 => (65456i64, -3228i64),
        254u8 => (65516i64, -1615i64),
        _ => (65536i64, 0i64),
    }
}

impl Vertex {
    /// A vertex from its lattice column and row.
    pub fn new(i0: usize, i1: usize) -> (v: Vertex)
        ensures
            v.i0 == i0,
            v.i1 == i1,
    {
        Vertex { i0, i1 }
    }

    /// Hash byte corresponding to the vertex.
    pub fn hash(&self) -> (h: u8)
        ensures
            h == vertex_hash_spec(self.i0 as int, self.i1 as int),
    {
        let lo = #[verifier::truncate] (self.i0 as u32);
        let hi = #[verifier::truncate] (self.i1 as u32);
        hash(lo | rotl(hi, 16))
    }

    /// Direction vector for the vertex: a deterministic function of the
    /// vertex coordinates alone.
    pub fn vec(&self) -> (g: Vec2)
        ensures
            g.x as int == gradient_spec(self.i0 as int, self.i1 as int).0,
            g.y as int == gradient_spec(self.i0 as int, self.i1 as int).1,
            -ONE <= g.x <= ONE,
            -ONE <= g.y <= ONE,
    {
        proof {
            lemma_gradient_unit(self.i0 as int, self.i1 as int);
        }
        let b = self.hash();
        let g = grad_components(b);
        Vec2 { x: g.0, y: g.1 }
    }
}

} // verus!

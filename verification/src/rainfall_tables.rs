//! The node tables of the rainfall model: ten regression trees over 116
//! radar features, in the layout that the loader reads.
//!
//! Thresholds and leaf values are scaled by `PRECISION_MULTIPLIER`. The
//! nodes of a tree are numbered level by level, so both children of a split
//! stand further down its table.

use vstd::prelude::*;
use crate::loader::{table_in_order, NO_CHILD};

verus! {

/// Number of features that the rainfall model reads.
pub const FEATURE_COUNT: usize = 116;

/// Number of trees in the rainfall model.
pub const TREE_COUNT: usize = 10;

/// Largest magnitude of a leaf value in the rainfall model.
pub const LEAF_LIMIT: i64 = 220286213;

/// Node table of the first tree.
pub const TREE_0: [[i64; 4]; 41] = [
    [34, 120000000000, 1, 2],
    [22, 8450000290, 3, 4],
    [71, 110000000000, 5, 6],
    [34, 85000000000, 7, 8],
    [0, 200073291, -1, -1],
    [54, 10000000000, 9, 10],
    [77, 350000000000, 11, 12],
    [0, 220286213, -1, -1],
    [85, 10316699700, 13, 14],
    [85, 9316669700, 15, 16],
    [98, 47177402, 17, 18],
    [56, -25000000000, 19, 20],
    [34, 210000000000, 21, 22],
    [54, 10000000000, 23, 24],
    [0, 204757601, -1, -1],
    [0, 216697901, -1, -1],
    [56, 46250000000, 25, 26],
    [77, 510000000000, 27, 28],
    [34, 240000000000, 29, 30],
    [0, 131937172, -1, -1],
    [0, 189821832, -1, -1],
    [98, 47177402, 31, 32],
    [0, 65454538, -1, -1],
    [0, 216100514, -1, -1],
    [0, 177788269, -1, -1],
    [41, 200000000000, 33, 34],
    [0, 212080162, -1, -1],
    [34, 180000000000, 35, 36],
    [0, 135967126, -1, -1],
    [0, 213882346, -1, -1],
    [0, 170198008, -1, -1],
    [0, 113076912, -1, -1],
    [0, 150089012, -1, -1],
    [56, -28125000000, 37, 38],
    [0, 148634585, -1, -1],
    [0, 160672814, -1, -1],
    [0, 178509150, -1, -1],
    [0, 214853249, -1, -1],
    [77, 210000000000, 39, 40],
    [0, 196630303, -1, -1],
    [0, 182448309, -1, -1],
];

/// Node table of the second tree.
pub const TREE_1: [[i64; 4]; 33] = [
    [34, 120000000000, 1, 2],
    [41, 30000000000, 3, 4],
    [41, 145000000000, 5, 6],
    [34, 90000000000, 7, 8],
    [77, 520000000000, 9, 10],
    [56, 16875000000, 11, 12],
    [77, 460000000000, 13, 14],
    [71, 10000000000, 15, 16],
    [85, 10149999900, 17, 18],
    [0, -98628206, -1, -1],
    [0, -82567809, -1, -1],
    [77, 560000000000, 19, 20],
    [0, -103122499, -1, -1],
    [0, -80401516, -1, -1],
    [71, 195000000000, 21, 22],
    [0, -109014511, -1, -1],
    [0, -92314146, -1, -1],
    [0, -104940450, -1, -1],
    [0, -96795242, -1, -1],
    [98, 9097869990, 23, 24],
    [102, 2891510130, 25, 26],
    [0, -56133452, -1, -1],
    [0, -11083750, -1, -1],
    [71, 135000000000, 27, 28],
    [62, 10000000000, 29, 30],
    [102, 1042150040, 31, 32],
    [0, -55822791, -1, -1],
    [0, -92081446, -1, -1],
    [0, -68823537, -1, -1],
    [0, -89030378, -1, -1],
    [0, -60643782, -1, -1],
    [0, -76886648, -1, -1],
    [0, -105834836, -1, -1],
];

/// Node table of the third tree.
pub const TREE_2: [[i64; 4]; 15] = [
    [54, 10000000000, 1, 2],
    [18, 13174599400, 3, 4],
    [98, 47177402, 5, 6],
    [34, 115000000000, 7, 8],
    [0, -33535536, -1, -1],
    [71, 175000000000, 9, 10],
    [0, -109209102, -1, -1],
    [0, -111318324, -1, -1],
    [85, 9216669800, 11, 12],
    [77, 190000000000, 13, 14],
    [0, -23944960, -1, -1],
    [0, -110063581, -1, -1],
    [0, -101747019, -1, -1],
    [0, -90477774, -1, -1],
    [0, -75595314, -1, -1],
];

/// Node table of the fourth tree.
pub const TREE_3: [[i64; 4]; 45] = [
    [34, 115000000000, 1, 2],
    [102, 3017739950, 3, 4],
    [54, 10000000000, 5, 6],
    [34, 95000000000, 7, 8],
    [0, 201743413, -1, -1],
    [28, -128489046000, 9, 10],
    [98, 47177402, 11, 12],
    [54, 10000000000, 13, 14],
    [0, 204360951, -1, -1],
    [85, 8583329920, 15, 16],
    [77, 210000000000, 17, 18],
    [77, 500000000000, 19, 20],
    [0, 203246623, -1, -1],
    [71, 75000000000, 21, 22],
    [0, 176237877, -1, -1],
    [0, 212018602, -1, -1],
    [56, 46250000000, 23, 24],
    [0, 188542046, -1, -1],
    [41, 240000000000, 25, 26],
    [71, 140000000000, 27, 28],
    [0, 125246290, -1, -1],
    [0, 215834305, -1, -1],
    [0, 180885270, -1, -1],
    [56, -30000000000, 29, 30],
    [0, 211293362, -1, -1],
    [85, 10249999800, 31, 32],
    [0, 68099876, -1, -1],
    [77, 70000000000, 33, 34],
    [0, 110215759, -1, -1],
    [0, 214402825, -1, -1],
    [71, 110000000000, 35, 36],
    [56, -625000000, 37, 38],
    [0, 115124555, -1, -1],
    [0, 183908530, -1, -1],
    [34, 175000000000, 39, 40],
    [77, 160000000000, 41, 42],
    [0, 166723803, -1, -1],
    [0, 141366646, -1, -1],
    [0, 177461114, -1, -1],
    [0, 151470201, -1, -1],
    [0, 169683266, -1, -1],
    [0, 196175501, -1, -1],
    [85, 10516699600, 43, 44],
    [0, 188515410, -1, -1],
    [0, 172999110, -1, -1],
];

/// Node table of the fifth tree.
pub const TREE_4: [[i64; 4]; 29] = [
    [34, 105000000000, 1, 2],
    [102, 3587639930, 3, 4],
    [41, 140000000000, 5, 6],
    [71, 30000000000, 7, 8],
    [0, -95674908, -1, -1],
    [56, 11250000000, 9, 10],
    [77, 340000000000, 11, 12],
    [0, -107858507, -1, -1],
    [0, -83645908, -1, -1],
    [98, 7917590140, 13, 14],
    [85, 9083330040, 15, 16],
    [77, 50000000000, 17, 18],
    [71, 190000000000, 19, 20],
    [60, -32500000000, 21, 22],
    [34, 155000000000, 23, 24],
    [0, -106970109, -1, -1],
    [0, -96427705, -1, -1],
    [0, -97370520, -1, -1],
    [0, -75484496, -1, -1],
    [32, -132573223000, 25, 26],
    [0, -23698979, -1, -1],
    [0, -104452092, -1, -1],
    [77, 550000000000, 27, 28],
    [0, -82954019, -1, -1],
    [0, -51729423, -1, -1],
    [0, -89075370, -1, -1],
    [0, -59816572, -1, -1],
    [0, -90929847, -1, -1],
    [0, -80107646, -1, -1],
];

/// Node table of the sixth tree.
pub const TREE_5: [[i64; 4]; 19] = [
    [54, 10000000000, 1, 2],
    [28, -106306915000, 3, 4],
    [71, 175000000000, 5, 6],
    [34, 115000000000, 7, 8],
    [0, -44213431, -1, -1],
    [98, 47177402, 9, 10],
    [0, -11418733, -1, -1],
    [0, -110623874, -1, -1],
    [85, 9283329840, 11, 12],
    [77, 100000000000, 13, 14],
    [0, -106590400, -1, -1],
    [0, -109469993, -1, -1],
    [0, -100927744, -1, -1],
    [0, -91569303, -1, -1],
    [22, 80000000000, 15, 16],
    [34, 130000000000, 17, 18],
    [0, -35172943, -1, -1],
    [0, -92457486, -1, -1],
    [0, -70770509, -1, -1],
];

/// Node table of the seventh tree.
pub const TREE_6: [[i64; 4]; 51] = [
    [34, 120000000000, 1, 2],
    [34, 80000000000, 3, 4],
    [71, 185000000000, 5, 6],
    [41, -15000000000, 7, 8],
    [71, 95000000000, 9, 10],
    [54, 10000000000, 11, 12],
    [77, 510000000000, 13, 14],
    [0, 211216267, -1, -1],
    [0, 199115016, -1, -1],
    [102, 4632590120, 15, 16],
    [0, 177206714, -1, -1],
    [98, 2408719960, 17, 18],
    [98, 47177402, 19, 20],
    [32, -95737161600, 21, 22],
    [0, 64264256, -1, -1],
    [0, 203387998, -1, -1],
    [77, 580000000000, 23, 24],
    [85, 9250000120, 25, 26],
    [77, 570000000000, 27, 28],
    [77, 550000000000, 29, 30],
    [0, 200974531, -1, -1],
    [0, 172833018, -1, -1],
    [0, 100538107, -1, -1],
    [0, 192870963, -1, -1],
    [0, 156547148, -1, -1],
    [0, 208464283, -1, -1],
    [28, -128126249000, 31, 32],
    [77, 110000000000, 33, 34],
    [32, -130523911000, 35, 36],
    [22, 145000000000, 37, 38],
    [77, 580000000000, 39, 40],
    [56, 26250000000, 41, 42],
    [0, 144163128, -1, -1],
    [0, 195179284, -1, -1],
    [62, 10000000000, 43, 44],
    [0, 174450502, -1, -1],
    [65, -78750000000, 45, 46],
    [34, 165000000000, 47, 48],
    [0, 120440479, -1, -1],
    [0, 104939900, -1, -1],
    [0, 139307147, -1, -1],
    [56, -20625000000, 49, 50],
    [0, 201723371, -1, -1],
    [0, 179194454, -1, -1],
    [0, 158879962, -1, -1],
    [0, 150654847, -1, -1],
    [0, 112415636, -1, -1],
    [0, 154358177, -1, -1],
    [0, 176384971, -1, -1],
    [0, 203255098, -1, -1],
    [0, 184152368, -1, -1],
];

/// Node table of the eighth tree.
pub const TREE_7: [[i64; 4]; 31] = [
    [34, 105000000000, 1, 2],
    [98, 5610970260, 3, 4],
    [41, 125000000000, 5, 6],
    [0, -107177328, -1, -1],
    [77, 560000000000, 7, 8],
    [56, 21875000000, 9, 10],
    [77, 160000000000, 11, 12],
    [60, -10625000000, 13, 14],
    [0, -75558540, -1, -1],
    [60, -30000000000, 15, 16],
    [0, -102541065, -1, -1],
    [0, -93834037, -1, -1],
    [22, 185000000000, 17, 18],
    [0, -79097264, -1, -1],
    [0, -99452883, -1, -1],
    [0, -105727250, -1, -1],
    [77, 420000000000, 19, 20],
    [71, 95000000000, 21, 22],
    [48, -8587239980, 23, 24],
    [0, -92028007, -1, -1],
    [34, 140000000000, 25, 26],
    [0, -77793938, -1, -1],
    [77, 560000000000, 27, 28],
    [0, -25736820, -1, -1],
    [0, -65213507, -1, -1],
    [0, -89877127, -1, -1],
    [98, 8946099880, 29, 30],
    [0, -70290868, -1, -1],
    [0, -37369209, -1, -1],
    [0, -81418483, -1, -1],
    [0, -43446147, -1, -1],
];

/// Node table of the ninth tree.
pub const TREE_8: [[i64; 4]; 17] = [
    [54, 10000000000, 1, 2],
    [34, 115000000000, 3, 4],
    [98, 47177402, 5, 6],
    [0, -110157225, -1, -1],
    [41, 250000000000, 7, 8],
    [71, 175000000000, 9, 10],
    [0, -107505322, -1, -1],
    [85, 10083299900, 11, 12],
    [0, -56816954, -1, -1],
    [77, 510000000000, 13, 14],
    [0, -16243105, -1, -1],
    [0, -105701117, -1, -1],
    [0, -98838126, -1, -1],
    [0, -81313355, -1, -1],
    [34, 135000000000, 15, 16],
    [0, -89351647, -1, -1],
    [0, -50091222, -1, -1],
];

/// Node table of the tenth tree.
pub const TREE_9: [[i64; 4]; 49] = [
    [34, 120000000000, 1, 2],
    [41, 25000000000, 3, 4],
    [71, 175000000000, 5, 6],
    [34, 80000000000, 7, 8],
    [77, 520000000000, 9, 10],
    [54, 10000000000, 11, 12],
    [77, 350000000000, 13, 14],
    [71, 0, 15, 16],
    [85, 10316699700, 17, 18],
    [0, 194547437, -1, -1],
    [41, 115000000000, 19, 20],
    [85, 9049999710, 21, 22],
    [98, 47177402, 23, 24],
    [56, -1875000000, 25, 26],
    [71, 220000000000, 27, 28],
    [0, 207114760, -1, -1],
    [0, 183432624, -1, -1],
    [54, 10000000000, 29, 30],
    [0, 192529727, -1, -1],
    [0, 180566125, -1, -1],
    [0, 153003298, -1, -1],
    [0, 202941615, -1, -1],
    [41, 200000000000, 31, 32],
    [77, 550000000000, 33, 34],
    [34, 220000000000, 35, 36],
    [0, 113139534, -1, -1],
    [0, 170389228, -1, -1],
    [0, 121934097, -1, -1],
    [0, 49785199, -1, -1],
    [0, 203589965, -1, -1],
    [0, 167924576, -1, -1],
    [56, 41250000000, 37, 38],
    [0, 134445932, -1, -1],
    [34, 195000000000, 39, 40],
    [0, 121499514, -1, -1],
    [0, 202018451, -1, -1],
    [0, 168260261, -1, -1],
    [77, 340000000000, 41, 42],
    [0, 201292746, -1, -1],
    [77, 70000000000, 43, 44],
    [0, 173615366, -1, -1],
    [0, 183587614, -1, -1],
    [98, 1500000060, 45, 46],
    [0, 172630139, -1, -1],
    [0, 146571761, -1, -1],
    [0, 179055259, -1, -1],
    [69, -30000000000, 47, 48],
    [0, 182974041, -1, -1],
    [0, 154395122, -1, -1],
];

/// The node tables of the rainfall model, in evaluation order.
pub open spec fn rainfall_tables() -> Seq<Seq<[i64; 4]>> {
    seq![
        TREE_0@,
        TREE_1@,
        TREE_2@,
        TREE_3@,
        TREE_4@,
        TREE_5@,
        TREE_6@,
        TREE_7@,
        TREE_8@,
        TREE_9@,
    ]
}

/// Whether the table is in order for the model's feature count and none of
/// its leaves exceeds `LEAF_LIMIT` in magnitude.
pub open spec fn table_sound(rows: Seq<[i64; 4]>) -> bool {
    &&& table_in_order(rows, FEATURE_COUNT as nat)
    &&& forall|i: int|
        0 <= i < rows.len() && rows[i][2] == NO_CHILD && rows[i][3] == NO_CHILD ==> -LEAF_LIMIT
            <= #[trigger] rows[i][1] <= LEAF_LIMIT
}

proof fn lemma_tree_0_sound()
    ensures
        table_sound(TREE_0@),
{
}

proof fn lemma_tree_1_sound()
    ensures
        table_sound(TREE_1@),
{
}

proof fn lemma_tree_2_sound()
    ensures
        table_sound(TREE_2@),
{
}

proof fn lemma_tree_3_sound()
    ensures
        table_sound(TREE_3@),
{
}

proof fn lemma_tree_4_sound()
    ensures
        table_sound(TREE_4@),
{
}

proof fn lemma_tree_5_sound()
    ensures
        table_sound(TREE_5@),
{
}

proof fn lemma_tree_6_sound()
    ensures
        table_sound(TREE_6@),
{
}

proof fn lemma_tree_7_sound()
    ensures
        table_sound(TREE_7@),
{
}

proof fn lemma_tree_8_sound()
    ensures
        table_sound(TREE_8@),
{
}

proof fn lemma_tree_9_sound()
    ensures
        table_sound(TREE_9@),
{
}

/// Every table of the rainfall model is sound.
pub proof fn lemma_rainfall_tables_sound()
    ensures
        rainfall_tables().len() == TREE_COUNT,
        forall|k: int| 0 <= k < TREE_COUNT ==> table_sound(#[trigger] rainfall_tables()[k]),
{
    lemma_tree_0_sound();
    lemma_tree_1_sound();
    lemma_tree_2_sound();
    lemma_tree_3_sound();
    lemma_tree_4_sound();
    lemma_tree_5_sound();
    lemma_tree_6_sound();
    lemma_tree_7_sound();
    lemma_tree_8_sound();
    lemma_tree_9_sound();
}

} // verus!

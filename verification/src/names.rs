//! The kernels, by name.

use vstd::prelude::*;

verus! {

/// Every kernel of the device source.
#[derive(Debug, Clone, Copy, PartialEq, Eq, Structural)]
pub enum Kernel {
    /// `conv1d`.
    Conv1d,
    /// `conv1d_short`.
    Conv1dShort,
    /// `depthwise_conv1d`.
    DepthwiseConv1d,
    /// `transposed_conv1d`.
    TransposedConv1d,
    /// `linear`.
    Linear,
    /// `gemm`.
    Gemm,
    /// `gemm_i8_q4k`.
    GemmI8Q4k,
    /// `gemm_i8_q6k`.
    GemmI8Q6k,
    /// `gemm_i8_q4k_narrow`.
    GemmI8Q4kNarrow,
    /// `gemm_i8_q6k_narrow`.
    GemmI8Q6kNarrow,
    /// `gemm_reduce`.
    GemmReduce,
    /// `flash_attn`.
    FlashAttn,
    /// `flash_attn_64`.
    FlashAttn64,
    /// `gemv`.
    Gemv,
    /// `gemv_norm`.
    GemvNorm,
    /// `gemv_q_rows2`.
    GemvQRows2,
    /// `gemv_q_rows3`.
    GemvQRows3,
    /// `gemv_q_rows4`.
    GemvQRows4,
    /// `gemv_ln`.
    GemvLn,
    /// `gemv_qkv_f16`.
    GemvQkvF16,
    /// `gemv_rows`.
    GemvRows,
    /// `cache_append_f16`.
    CacheAppendF16,
    /// `cache_append_t_f16`.
    CacheAppendTF16,
    /// `rope_cache_f16`.
    RopeCacheF16,
    /// `cache_grow_f16`.
    CacheGrowF16,
    /// `flash_attn_h`.
    FlashAttnH,
    /// `quantize_q8`.
    QuantizeQ8,
    /// `cache_append`.
    CacheAppend,
    /// `cache_append_t`.
    CacheAppendT,
    /// `cache_grow`.
    CacheGrow,
    /// `softmax_causal`.
    SoftmaxCausal,
    /// `layer_norm`.
    LayerNorm,
    /// `layer_norm_add`.
    LayerNormAdd,
    /// `silu_mul_pair`.
    SiluMulPair,
    /// `layer_norm_add_f16`.
    LayerNormAddF16,
    /// `layer_norm_mod`.
    LayerNormMod,
    /// `gate_add`.
    GateAdd,
    /// `act_gelu_f16`.
    ActGeluF16,
    /// `softmax_rows`.
    SoftmaxRows,
    /// `act_relu`.
    ActRelu,
    /// `act_leaky_relu`.
    ActLeakyRelu,
    /// `act_snake`.
    ActSnake,
    /// `act_elu`.
    ActElu,
    /// `act_mish`.
    ActMish,
    /// `act_silu`.
    ActSilu,
    /// `act_gelu_tanh`.
    ActGeluTanh,
    /// `act_tanh`.
    ActTanh,
    /// `act_gelu`.
    ActGelu,
    /// `gated_activation`.
    GatedActivation,
    /// `gated_activation_rows`.
    GatedActivationRows,
    /// `add_inplace`.
    AddInplace,
    /// `sub_inplace`.
    SubInplace,
    /// `mul_inplace`.
    MulInplace,
    /// `add_strided`.
    AddStrided,
    /// `scale_inplace`.
    ScaleInplace,
    /// `copy_range`.
    CopyRange,
    /// `copy_into`.
    CopyInto,
    /// `copy_from_into`.
    CopyFromInto,
    /// `concat2`.
    Concat2,
    /// `relu_mask`.
    ReluMask,
    /// `attn_weights_update`.
    AttnWeightsUpdate,
    /// `taco_energies`.
    TacoEnergies,
    /// `taco_context`.
    TacoContext,
    /// `transpose`.
    Transpose,
    /// `flip_channels`.
    FlipChannels,
    /// `embed_scaled`.
    EmbedScaled,
    /// `fuse_weight_norm`.
    FuseWeightNorm,
    /// `attention_scores`.
    AttentionScores,
    /// `attention_context`.
    AttentionContext,
    /// `expand_prior`.
    ExpandPrior,
    /// `im2col`.
    Im2col,
    /// `pack_f16`.
    PackF16,
    /// `rms_norm`.
    RmsNorm,
    /// `silu_mul`.
    SiluMul,
    /// `rope`.
    Rope,
    /// `repeat_kv`.
    RepeatKv,
    /// `stft_dft`.
    StftDft,
    /// `istft_ola`.
    IstftOla,
    /// `upsample_nearest`.
    UpsampleNearest,
    /// `strided_conv1d`.
    StridedConv1d,
    /// `rope_gptj`.
    RopeGptj,
    /// `grouped_conv1d`.
    GroupedConv1d,
    /// `split_heads`.
    SplitHeads,
    /// `split_heads_t`.
    SplitHeadsT,
    /// `split_heads_f16`.
    SplitHeadsF16,
    /// `split_heads_t_f16`.
    SplitHeadsTF16,
    /// `merge_heads`.
    MergeHeads,
    /// `causal_mask`.
    CausalMask,
    /// `lstm_gates`.
    LstmGates,
    /// `coupling_inverse`.
    CouplingInverse,
    /// `attn_decode_h128_c32`.
    AttnDecodeH128C32,
    /// `attn_decode_h128`.
    AttnDecodeH128,
    /// `attn_decode_h128_c128`.
    AttnDecodeH128C128,
    /// `attn_decode_h64`.
    AttnDecodeH64,
    /// `attn_decode_h64_g8`.
    AttnDecodeH64G8,
    /// `attn_decode_h64_g8_c32`.
    AttnDecodeH64G8C32,
    /// `attn_decode_f64`.
    AttnDecodeF64,
    /// `embed_q`.
    EmbedQ,
}

/// How many kernels there are.
pub const KERNELS: usize = 98;

impl Kernel {
    /// The name the device source declares the kernel under.
    pub open spec fn spec_name(self) -> Seq<char> {
        match self {
            Kernel::Conv1d => "conv1d"@,
            Kernel::Conv1dShort => "conv1d_short"@,
            Kernel::DepthwiseConv1d => "depthwise_conv1d"@,
            Kernel::TransposedConv1d => "transposed_conv1d"@,
            Kernel::Linear => "linear"@,
            Kernel::Gemm => "gemm"@,
            Kernel::GemmI8Q4k => "gemm_i8_q4k"@,
            Kernel::GemmI8Q6k => "gemm_i8_q6k"@,
            Kernel::GemmI8Q4kNarrow => "gemm_i8_q4k_narrow"@,
            Kernel::GemmI8Q6kNarrow => "gemm_i8_q6k_narrow"@,
            Kernel::GemmReduce => "gemm_reduce"@,
            Kernel::FlashAttn => "flash_attn"@,
            Kernel::FlashAttn64 => "flash_attn_64"@,
            Kernel::Gemv => "gemv"@,
            Kernel::GemvNorm => "gemv_norm"@,
            Kernel::GemvQRows2 => "gemv_q_rows2"@,
            Kernel::GemvQRows3 => "gemv_q_rows3"@,
            Kernel::GemvQRows4 => "gemv_q_rows4"@,
            Kernel::GemvLn => "gemv_ln"@,
            Kernel::GemvQkvF16 => "gemv_qkv_f16"@,
            Kernel::GemvRows => "gemv_rows"@,
            Kernel::CacheAppendF16 => "cache_append_f16"@,
            Kernel::CacheAppendTF16 => "cache_append_t_f16"@,
            Kernel::RopeCacheF16 => "rope_cache_f16"@,
            Kernel::CacheGrowF16 => "cache_grow_f16"@,
            Kernel::FlashAttnH => "flash_attn_h"@,
            Kernel::QuantizeQ8 => "quantize_q8"@,
            Kernel::CacheAppend => "cache_append"@,
            Kernel::CacheAppendT => "cache_append_t"@,
            Kernel::CacheGrow => "cache_grow"@,
            Kernel::SoftmaxCausal => "softmax_causal"@,
            Kernel::LayerNorm => "layer_norm"@,
            Kernel::LayerNormAdd => "layer_norm_add"@,
            Kernel::SiluMulPair => "silu_mul_pair"@,
            Kernel::LayerNormAddF16 => "layer_norm_add_f16"@,
            Kernel::LayerNormMod => "layer_norm_mod"@,
            Kernel::GateAdd => "gate_add"@,
            Kernel::ActGeluF16 => "act_gelu_f16"@,
            Kernel::SoftmaxRows => "softmax_rows"@,
            Kernel::ActRelu => "act_relu"@,
            Kernel::ActLeakyRelu => "act_leaky_relu"@,
            Kernel::ActSnake => "act_snake"@,
            Kernel::ActElu => "act_elu"@,
            Kernel::ActMish => "act_mish"@,
            Kernel::ActSilu => "act_silu"@,
            Kernel::ActGeluTanh => "act_gelu_tanh"@,
            Kernel::ActTanh => "act_tanh"@,
            Kernel::ActGelu => "act_gelu"@,
            Kernel::GatedActivation => "gated_activation"@,
            Kernel::GatedActivationRows => "gated_activation_rows"@,
            Kernel::AddInplace => "add_inplace"@,
            Kernel::SubInplace => "sub_inplace"@,
            Kernel::MulInplace => "mul_inplace"@,
            Kernel::AddStrided => "add_strided"@,
            Kernel::ScaleInplace => "scale_inplace"@,
            Kernel::CopyRange => "copy_range"@,
            Kernel::CopyInto => "copy_into"@,
            Kernel::CopyFromInto => "copy_from_into"@,
            Kernel::Concat2 => "concat2"@,
            Kernel::ReluMask => "relu_mask"@,
            Kernel::AttnWeightsUpdate => "attn_weights_update"@,
            Kernel::TacoEnergies => "taco_energies"@,
            Kernel::TacoContext => "taco_context"@,
            Kernel::Transpose => "transpose"@,
            Kernel::FlipChannels => "flip_channels"@,
            Kernel::EmbedScaled => "embed_scaled"@,
            Kernel::FuseWeightNorm => "fuse_weight_norm"@,
            Kernel::AttentionScores => "attention_scores"@,
            Kernel::AttentionContext => "attention_context"@,
            Kernel::ExpandPrior => "expand_prior"@,
            Kernel::Im2col => "im2col"@,
            Kernel::PackF16 => "pack_f16"@,
            Kernel::RmsNorm => "rms_norm"@,
            Kernel::SiluMul => "silu_mul"@,
            Kernel::Rope => "rope"@,
            Kernel::RepeatKv => "repeat_kv"@,
            Kernel::StftDft => "stft_dft"@,
            Kernel::IstftOla => "istft_ola"@,
            Kernel::UpsampleNearest => "upsample_nearest"@,
            Kernel::StridedConv1d => "strided_conv1d"@,
            Kernel::RopeGptj => "rope_gptj"@,
            Kernel::GroupedConv1d => "grouped_conv1d"@,
            Kernel::SplitHeads => "split_heads"@,
            Kernel::SplitHeadsT => "split_heads_t"@,
            Kernel::SplitHeadsF16 => "split_heads_f16"@,
            Kernel::SplitHeadsTF16 => "split_heads_t_f16"@,
            Kernel::MergeHeads => "merge_heads"@,
            Kernel::CausalMask => "causal_mask"@,
            Kernel::LstmGates => "lstm_gates"@,
            Kernel::CouplingInverse => "coupling_inverse"@,
            Kernel::AttnDecodeH128C32 => "attn_decode_h128_c32"@,
            Kernel::AttnDecodeH128 => "attn_decode_h128"@,
            Kernel::AttnDecodeH128C128 => "attn_decode_h128_c128"@,
            Kernel::AttnDecodeH64 => "attn_decode_h64"@,
            Kernel::AttnDecodeH64G8 => "attn_decode_h64_g8"@,
            Kernel::AttnDecodeH64G8C32 => "attn_decode_h64_g8_c32"@,
            Kernel::AttnDecodeF64 => "attn_decode_f64"@,
            Kernel::EmbedQ => "embed_q"@,
        }
    }

    /// The name the device source declares the kernel under.
    pub fn name(self) -> (name: &'static str)
        ensures
            name@ == self.spec_name(),
    {
        match self {
            Kernel::Conv1d => "conv1d",
            Kernel::Conv1dShort => "conv1d_short",
            Kernel::DepthwiseConv1d => "depthwise_conv1d",
            Kernel::TransposedConv1d => "transposed_conv1d",
            Kernel::Linear => "linear",
            Kernel::Gemm => "gemm",
            Kernel::GemmI8Q4k => "gemm_i8_q4k",
            Kernel::GemmI8Q6k => "gemm_i8_q6k",
            Kernel::GemmI8Q4kNarrow => "gemm_i8_q4k_narrow",
            Kernel::GemmI8Q6kNarrow => "gemm_i8_q6k_narrow",
            Kernel::GemmReduce => "gemm_reduce",
            Kernel::FlashAttn => "flash_attn",
            Kernel::FlashAttn64 => "flash_attn_64",
            Kernel::Gemv => "gemv",
            Kernel::GemvNorm => "gemv_norm",
            Kernel::GemvQRows2 => "gemv_q_rows2",
            Kernel::GemvQRows3 => "gemv_q_rows3",
            Kernel::GemvQRows4 => "gemv_q_rows4",
            Kernel::GemvLn => "gemv_ln",
            Kernel::GemvQkvF16 => "gemv_qkv_f16",
            Kernel::GemvRows => "gemv_rows",
            Kernel::CacheAppendF16 => "cache_append_f16",
            Kernel::CacheAppendTF16 => "cache_append_t_f16",
            Kernel::RopeCacheF16 => "rope_cache_f16",
            Kernel::CacheGrowF16 => "cache_grow_f16",
            Kernel::FlashAttnH => "flash_attn_h",
            Kernel::QuantizeQ8 => "quantize_q8",
            Kernel::CacheAppend => "cache_append",
            Kernel::CacheAppendT => "cache_append_t",
            Kernel::CacheGrow => "cache_grow",
            Kernel::SoftmaxCausal => "softmax_causal",
            Kernel::LayerNorm => "layer_norm",
            Kernel::LayerNormAdd => "layer_norm_add",
            Kernel::SiluMulPair => "silu_mul_pair",
            Kernel::LayerNormAddF16 => "layer_norm_add_f16",
            Kernel::LayerNormMod => "layer_norm_mod",
            Kernel::GateAdd => "gate_add",
            Kernel::ActGeluF16 => "act_gelu_f16",
            Kernel::SoftmaxRows => "softmax_rows",
            Kernel::ActRelu => "act_relu",
            Kernel::ActLeakyRelu => "act_leaky_relu",
            Kernel::ActSnake => "act_snake",
            Kernel::ActElu => "act_elu",
            Kernel::ActMish => "act_mish",
            Kernel::ActSilu => "act_silu",
            Kernel::ActGeluTanh => "act_gelu_tanh",
            Kernel::ActTanh => "act_tanh",
            Kernel::ActGelu => "act_gelu",
            Kernel::GatedActivation => "gated_activation",
            Kernel::GatedActivationRows => "gated_activation_rows",
            Kernel::AddInplace => "add_inplace",
            Kernel::SubInplace => "sub_inplace",
            Kernel::MulInplace => "mul_inplace",
            Kernel::AddStrided => "add_strided",
            Kernel::ScaleInplace => "scale_inplace",
            Kernel::CopyRange => "copy_range",
            Kernel::CopyInto => "copy_into",
            Kernel::CopyFromInto => "copy_from_into",
            Kernel::Concat2 => "concat2",
            Kernel::ReluMask => "relu_mask",
            Kernel::AttnWeightsUpdate => "attn_weights_update",
            Kernel::TacoEnergies => "taco_energies",
            Kernel::TacoContext => "taco_context",
            Kernel::Transpose => "transpose",
            Kernel::FlipChannels => "flip_channels",
            Kernel::EmbedScaled => "embed_scaled",
            Kernel::FuseWeightNorm => "fuse_weight_norm",
            Kernel::AttentionScores => "attention_scores",
            Kernel::AttentionContext => "attention_context",
            Kernel::ExpandPrior => "expand_prior",
            Kernel::Im2col => "im2col",
            Kernel::PackF16 => "pack_f16",
            Kernel::RmsNorm => "rms_norm",
            Kernel::SiluMul => "silu_mul",
            Kernel::Rope => "rope",
            Kernel::RepeatKv => "repeat_kv",
            Kernel::StftDft => "stft_dft",
            Kernel::IstftOla => "istft_ola",
            Kernel::UpsampleNearest => "upsample_nearest",
            Kernel::StridedConv1d => "strided_conv1d",
            Kernel::RopeGptj => "rope_gptj",
            Kernel::GroupedConv1d => "grouped_conv1d",
            Kernel::SplitHeads => "split_heads",
            Kernel::SplitHeadsT => "split_heads_t",
            Kernel::SplitHeadsF16 => "split_heads_f16",
            Kernel::SplitHeadsTF16 => "split_heads_t_f16",
            Kernel::MergeHeads => "merge_heads",
            Kernel::CausalMask => "causal_mask",
            Kernel::LstmGates => "lstm_gates",
            Kernel::CouplingInverse => "coupling_inverse",
            Kernel::AttnDecodeH128C32 => "attn_decode_h128_c32",
            Kernel::AttnDecodeH128 => "attn_decode_h128",
            Kernel::AttnDecodeH128C128 => "attn_decode_h128_c128",
            Kernel::AttnDecodeH64 => "attn_decode_h64",
            Kernel::AttnDecodeH64G8 => "attn_decode_h64_g8",
            Kernel::AttnDecodeH64G8C32 => "attn_decode_h64_g8_c32",
            Kernel::AttnDecodeF64 => "attn_decode_f64",
            Kernel::EmbedQ => "embed_q",
        }
    }

    /// The kernel's place in the order they are loaded.
    pub open spec fn spec_index(self) -> int {
        match self {
            Kernel::Conv1d => 0,
            Kernel::Conv1dShort => 1,
            Kernel::DepthwiseConv1d => 2,
            Kernel::TransposedConv1d => 3,
            Kernel::Linear => 4,
            Kernel::Gemm => 5,
            Kernel::GemmI8Q4k => 6,
            Kernel::GemmI8Q6k => 7,
            Kernel::GemmI8Q4kNarrow => 8,
            Kernel::GemmI8Q6kNarrow => 9,
            Kernel::GemmReduce => 10,
            Kernel::FlashAttn => 11,
            Kernel::FlashAttn64 => 12,
            Kernel::Gemv => 13,
            Kernel::GemvNorm => 14,
            Kernel::GemvQRows2 => 15,
            Kernel::GemvQRows3 => 16,
            Kernel::GemvQRows4 => 17,
            Kernel::GemvLn => 18,
            Kernel::GemvQkvF16 => 19,
            Kernel::GemvRows => 20,
            Kernel::CacheAppendF16 => 21,
            Kernel::CacheAppendTF16 => 22,
            Kernel::RopeCacheF16 => 23,
            Kernel::CacheGrowF16 => 24,
            Kernel::FlashAttnH => 25,
            Kernel::QuantizeQ8 => 26,
            Kernel::CacheAppend => 27,
            Kernel::CacheAppendT => 28,
            Kernel::CacheGrow => 29,
            Kernel::SoftmaxCausal => 30,
            Kernel::LayerNorm => 31,
            Kernel::LayerNormAdd => 32,
            Kernel::SiluMulPair => 33,
            Kernel::LayerNormAddF16 => 34,
            Kernel::LayerNormMod => 35,
            Kernel::GateAdd => 36,
            Kernel::ActGeluF16 => 37,
            Kernel::SoftmaxRows => 38,
            Kernel::ActRelu => 39,
            Kernel::ActLeakyRelu => 40,
            Kernel::ActSnake => 41,
            Kernel::ActElu => 42,
            Kernel::ActMish => 43,
            Kernel::ActSilu => 44,
            Kernel::ActGeluTanh => 45,
            Kernel::ActTanh => 46,
            Kernel::ActGelu => 47,
            Kernel::GatedActivation => 48,
            Kernel::GatedActivationRows => 49,
            Kernel::AddInplace => 50,
            Kernel::SubInplace => 51,
            Kernel::MulInplace => 52,
            Kernel::AddStrided => 53,
            Kernel::ScaleInplace => 54,
            Kernel::CopyRange => 55,
            Kernel::CopyInto => 56,
            Kernel::CopyFromInto => 57,
            Kernel::Concat2 => 58,
            Kernel::ReluMask => 59,
            Kernel::AttnWeightsUpdate => 60,
            Kernel::TacoEnergies => 61,
            Kernel::TacoContext => 62,
            Kernel::Transpose => 63,
            Kernel::FlipChannels => 64,
            Kernel::EmbedScaled => 65,
            Kernel::FuseWeightNorm => 66,
            Kernel::AttentionScores => 67,
            Kernel::AttentionContext => 68,
            Kernel::ExpandPrior => 69,
            Kernel::Im2col => 70,
            Kernel::PackF16 => 71,
            Kernel::RmsNorm => 72,
            Kernel::SiluMul => 73,
            Kernel::Rope => 74,
            Kernel::RepeatKv => 75,
            Kernel::StftDft => 76,
            Kernel::IstftOla => 77,
            Kernel::UpsampleNearest => 78,
            Kernel::StridedConv1d => 79,
            Kernel::RopeGptj => 80,
            Kernel::GroupedConv1d => 81,
            Kernel::SplitHeads => 82,
            Kernel::SplitHeadsT => 83,
            Kernel::SplitHeadsF16 => 84,
            Kernel::SplitHeadsTF16 => 85,
            Kernel::MergeHeads => 86,
            Kernel::CausalMask => 87,
            Kernel::LstmGates => 88,
            Kernel::CouplingInverse => 89,
            Kernel::AttnDecodeH128C32 => 90,
            Kernel::AttnDecodeH128 => 91,
            Kernel::AttnDecodeH128C128 => 92,
            Kernel::AttnDecodeH64 => 93,
            Kernel::AttnDecodeH64G8 => 94,
            Kernel::AttnDecodeH64G8C32 => 95,
            Kernel::AttnDecodeF64 => 96,
            Kernel::EmbedQ => 97,
        }
    }

    /// The kernel loaded at place `i`, or `None` past the last.
    pub fn nth(i: usize) -> (kernel: Option<Kernel>)
        ensures
            kernel is Some <==> i < KERNELS,
            kernel is Some ==> kernel.unwrap().spec_index() == i,
    {
        match i {
            0 => Some(Kernel::Conv1d),
            1 => Some(Kernel::Conv1dShort),
            2 => Some(Kernel::DepthwiseConv1d),
            3 => Some(Kernel::TransposedConv1d),
            4 => Some(Kernel::Linear),
            5 => Some(Kernel::Gemm),
            6 => Some(Kernel::GemmI8Q4k),
            7 => Some(Kernel::GemmI8Q6k),
            8 => Some(Kernel::GemmI8Q4kNarrow),
            9 => Some(Kernel::GemmI8Q6kNarrow),
            10 => Some(Kernel::GemmReduce),
            11 => Some(Kernel::FlashAttn),
            12 => Some(Kernel::FlashAttn64),
            13 => Some(Kernel::Gemv),
            14 => Some(Kernel::GemvNorm),
            15 => Some(Kernel::GemvQRows2),
            16 => Some(Kernel::GemvQRows3),
            17 => Some(Kernel::GemvQRows4),
            18 => Some(Kernel::GemvLn),
            19 => Some(Kernel::GemvQkvF16),
            20 => Some(Kernel::GemvRows),
            21 => Some(Kernel::CacheAppendF16),
            22 => Some(Kernel::CacheAppendTF16),
            23 => Some(Kernel::RopeCacheF16),
            24 => Some(Kernel::CacheGrowF16),
            25 => Some(Kernel::FlashAttnH),
            26 => Some(Kernel::QuantizeQ8),
            27 => Some(Kernel::CacheAppend),
            28 => Some(Kernel::CacheAppendT),
            29 => Some(Kernel::CacheGrow),
            30 => Some(Kernel::SoftmaxCausal),
            31 => Some(Kernel::LayerNorm),
            32 => Some(Kernel::LayerNormAdd),
            33 => Some(Kernel::SiluMulPair),
            34 => Some(Kernel::LayerNormAddF16),
            35 => Some(Kernel::LayerNormMod),
            36 => Some(Kernel::GateAdd),
            37 => Some(Kernel::ActGeluF16),
            38 => Some(Kernel::SoftmaxRows),
            39 => Some(Kernel::ActRelu),
            40 => Some(Kernel::ActLeakyRelu),
            41 => Some(Kernel::ActSnake),
            42 => Some(Kernel::ActElu),
            43 => Some(Kernel::ActMish),
            44 => Some(Kernel::ActSilu),
            45 => Some(Kernel::ActGeluTanh),
            46 => Some(Kernel::ActTanh),
            47 => Some(Kernel::ActGelu),
            48 => Some(Kernel::GatedActivation),
            49 => Some(Kernel::GatedActivationRows),
            50 => Some(Kernel::AddInplace),
            51 => Some(Kernel::SubInplace),
            52 => Some(Kernel::MulInplace),
            53 => Some(Kernel::AddStrided),
            54 => Some(Kernel::ScaleInplace),
            55 => Some(Kernel::CopyRange),
            56 => Some(Kernel::CopyInto),
            57 => Some(Kernel::CopyFromInto),
            58 => Some(Kernel::Concat2),
            59 => Some(Kernel::ReluMask),
            60 => Some(Kernel::AttnWeightsUpdate),
            61 => Some(Kernel::TacoEnergies),
            62 => Some(Kernel::TacoContext),
            63 => Some(Kernel::Transpose),
            64 => Some(Kernel::FlipChannels),
            65 => Some(Kernel::EmbedScaled),
            66 => Some(Kernel::FuseWeightNorm),
            67 => Some(Kernel::AttentionScores),
            68 => Some(Kernel::AttentionContext),
            69 => Some(Kernel::ExpandPrior),
            70 => Some(Kernel::Im2col),
            71 => Some(Kernel::PackF16),
            72 => Some(Kernel::RmsNorm),
            73 => Some(Kernel::SiluMul),
            74 => Some(Kernel::Rope),
            75 => Some(Kernel::RepeatKv),
            76 => Some(Kernel::StftDft),
            77 => Some(Kernel::IstftOla),
            78 => Some(Kernel::UpsampleNearest),
            79 => Some(Kernel::StridedConv1d),
            80 => Some(Kernel::RopeGptj),
            81 => Some(Kernel::GroupedConv1d),
            82 => Some(Kernel::SplitHeads),
            83 => Some(Kernel::SplitHeadsT),
            84 => Some(Kernel::SplitHeadsF16),
            85 => Some(Kernel::SplitHeadsTF16),
            86 => Some(Kernel::MergeHeads),
            87 => Some(Kernel::CausalMask),
            88 => Some(Kernel::LstmGates),
            89 => Some(Kernel::CouplingInverse),
            90 => Some(Kernel::AttnDecodeH128C32),
            91 => Some(Kernel::AttnDecodeH128),
            92 => Some(Kernel::AttnDecodeH128C128),
            93 => Some(Kernel::AttnDecodeH64),
            94 => Some(Kernel::AttnDecodeH64G8),
            95 => Some(Kernel::AttnDecodeH64G8C32),
            96 => Some(Kernel::AttnDecodeF64),
            97 => Some(Kernel::EmbedQ),
            _ => None,
        }
    }
}

/// Each kernel has a place below [`KERNELS`], and no two share one.
pub proof fn index_is_injective(a: Kernel, b: Kernel)
    ensures
        0 <= a.spec_index() < KERNELS,
        a.spec_index() == b.spec_index() ==> a == b,
{
}

/// Every kernel is asked for by the name that the device source gives it.
pub proof fn a_kernel_is_asked_for_by_its_name_in_the_source(k: Kernel)
    ensures
        k == Kernel::Conv1d ==> k.spec_name() == "conv1d"@,
        k == Kernel::Conv1dShort ==> k.spec_name() == "conv1d_short"@,
        k == Kernel::DepthwiseConv1d ==> k.spec_name() == "depthwise_conv1d"@,
        k == Kernel::TransposedConv1d ==> k.spec_name() == "transposed_conv1d"@,
        k == Kernel::Linear ==> k.spec_name() == "linear"@,
        k == Kernel::Gemm ==> k.spec_name() == "gemm"@,
        k == Kernel::GemmI8Q4k ==> k.spec_name() == "gemm_i8_q4k"@,
        k == Kernel::GemmI8Q6k ==> k.spec_name() == "gemm_i8_q6k"@,
        k == Kernel::GemmI8Q4kNarrow ==> k.spec_name() == "gemm_i8_q4k_narrow"@,
        k == Kernel::GemmI8Q6kNarrow ==> k.spec_name() == "gemm_i8_q6k_narrow"@,
        k == Kernel::GemmReduce ==> k.spec_name() == "gemm_reduce"@,
        k == Kernel::FlashAttn ==> k.spec_name() == "flash_attn"@,
        k == Kernel::FlashAttn64 ==> k.spec_name() == "flash_attn_64"@,
        k == Kernel::Gemv ==> k.spec_name() == "gemv"@,
        k == Kernel::GemvNorm ==> k.spec_name() == "gemv_norm"@,
        k == Kernel::GemvQRows2 ==> k.spec_name() == "gemv_q_rows2"@,
        k == Kernel::GemvQRows3 ==> k.spec_name() == "gemv_q_rows3"@,
        k == Kernel::GemvQRows4 ==> k.spec_name() == "gemv_q_rows4"@,
        k == Kernel::GemvLn ==> k.spec_name() == "gemv_ln"@,
        k == Kernel::GemvQkvF16 ==> k.spec_name() == "gemv_qkv_f16"@,
        k == Kernel::GemvRows ==> k.spec_name() == "gemv_rows"@,
        k == Kernel::CacheAppendF16 ==> k.spec_name() == "cache_append_f16"@,
        k == Kernel::CacheAppendTF16 ==> k.spec_name() == "cache_append_t_f16"@,
        k == Kernel::RopeCacheF16 ==> k.spec_name() == "rope_cache_f16"@,
        k == Kernel::CacheGrowF16 ==> k.spec_name() == "cache_grow_f16"@,
        k == Kernel::FlashAttnH ==> k.spec_name() == "flash_attn_h"@,
        k == Kernel::QuantizeQ8 ==> k.spec_name() == "quantize_q8"@,
        k == Kernel::CacheAppend ==> k.spec_name() == "cache_append"@,
        k == Kernel::CacheAppendT ==> k.spec_name() == "cache_append_t"@,
        k == Kernel::CacheGrow ==> k.spec_name() == "cache_grow"@,
        k == Kernel::SoftmaxCausal ==> k.spec_name() == "softmax_causal"@,
        k == Kernel::LayerNorm ==> k.spec_name() == "layer_norm"@,
        k == Kernel::LayerNormAdd ==> k.spec_name() == "layer_norm_add"@,
        k == Kernel::SiluMulPair ==> k.spec_name() == "silu_mul_pair"@,
        k == Kernel::LayerNormAddF16 ==> k.spec_name() == "layer_norm_add_f16"@,
        k == Kernel::LayerNormMod ==> k.spec_name() == "layer_norm_mod"@,
        k == Kernel::GateAdd ==> k.spec_name() == "gate_add"@,
        k == Kernel::ActGeluF16 ==> k.spec_name() == "act_gelu_f16"@,
        k == Kernel::SoftmaxRows ==> k.spec_name() == "softmax_rows"@,
        k == Kernel::ActRelu ==> k.spec_name() == "act_relu"@,
        k == Kernel::ActLeakyRelu ==> k.spec_name() == "act_leaky_relu"@,
        k == Kernel::ActSnake ==> k.spec_name() == "act_snake"@,
        k == Kernel::ActElu ==> k.spec_name() == "act_elu"@,
        k == Kernel::ActMish ==> k.spec_name() == "act_mish"@,
        k == Kernel::ActSilu ==> k.spec_name() == "act_silu"@,
        k == Kernel::ActGeluTanh ==> k.spec_name() == "act_gelu_tanh"@,
        k == Kernel::ActTanh ==> k.spec_name() == "act_tanh"@,
        k == Kernel::ActGelu ==> k.spec_name() == "act_gelu"@,
        k == Kernel::GatedActivation ==> k.spec_name() == "gated_activation"@,
        k == Kernel::GatedActivationRows ==> k.spec_name() == "gated_activation_rows"@,
        k == Kernel::AddInplace ==> k.spec_name() == "add_inplace"@,
        k == Kernel::SubInplace ==> k.spec_name() == "sub_inplace"@,
        k == Kernel::MulInplace ==> k.spec_name() == "mul_inplace"@,
        k == Kernel::AddStrided ==> k.spec_name() == "add_strided"@,
        k == Kernel::ScaleInplace ==> k.spec_name() == "scale_inplace"@,
        k == Kernel::CopyRange ==> k.spec_name() == "copy_range"@,
        k == Kernel::CopyInto ==> k.spec_name() == "copy_into"@,
        k == Kernel::CopyFromInto ==> k.spec_name() == "copy_from_into"@,
        k == Kernel::Concat2 ==> k.spec_name() == "concat2"@,
        k == Kernel::ReluMask ==> k.spec_name() == "relu_mask"@,
        k == Kernel::AttnWeightsUpdate ==> k.spec_name() == "attn_weights_update"@,
        k == Kernel::TacoEnergies ==> k.spec_name() == "taco_energies"@,
        k == Kernel::TacoContext ==> k.spec_name() == "taco_context"@,
        k == Kernel::Transpose ==> k.spec_name() == "transpose"@,
        k == Kernel::FlipChannels ==> k.spec_name() == "flip_channels"@,
        k == Kernel::EmbedScaled ==> k.spec_name() == "embed_scaled"@,
        k == Kernel::FuseWeightNorm ==> k.spec_name() == "fuse_weight_norm"@,
        k == Kernel::AttentionScores ==> k.spec_name() == "attention_scores"@,
        k == Kernel::AttentionContext ==> k.spec_name() == "attention_context"@,
        k == Kernel::ExpandPrior ==> k.spec_name() == "expand_prior"@,
        k == Kernel::Im2col ==> k.spec_name() == "im2col"@,
        k == Kernel::PackF16 ==> k.spec_name() == "pack_f16"@,
        k == Kernel::RmsNorm ==> k.spec_name() == "rms_norm"@,
        k == Kernel::SiluMul ==> k.spec_name() == "silu_mul"@,
        k == Kernel::Rope ==> k.spec_name() == "rope"@,
        k == Kernel::RepeatKv ==> k.spec_name() == "repeat_kv"@,
        k == Kernel::StftDft ==> k.spec_name() == "stft_dft"@,
        k == Kernel::IstftOla ==> k.spec_name() == "istft_ola"@,
        k == Kernel::UpsampleNearest ==> k.spec_name() == "upsample_nearest"@,
        k == Kernel::StridedConv1d ==> k.spec_name() == "strided_conv1d"@,
        k == Kernel::RopeGptj ==> k.spec_name() == "rope_gptj"@,
        k == Kernel::GroupedConv1d ==> k.spec_name() == "grouped_conv1d"@,
        k == Kernel::SplitHeads ==> k.spec_name() == "split_heads"@,
        k == Kernel::SplitHeadsT ==> k.spec_name() == "split_heads_t"@,
        k == Kernel::SplitHeadsF16 ==> k.spec_name() == "split_heads_f16"@,
        k == Kernel::SplitHeadsTF16 ==> k.spec_name() == "split_heads_t_f16"@,
        k == Kernel::MergeHeads ==> k.spec_name() == "merge_heads"@,
        k == Kernel::CausalMask ==> k.spec_name() == "causal_mask"@,
        k == Kernel::LstmGates ==> k.spec_name() == "lstm_gates"@,
        k == Kernel::CouplingInverse ==> k.spec_name() == "coupling_inverse"@,
        k == Kernel::AttnDecodeH128C32 ==> k.spec_name() == "attn_decode_h128_c32"@,
        k == Kernel::AttnDecodeH128 ==> k.spec_name() == "attn_decode_h128"@,
        k == Kernel::AttnDecodeH128C128 ==> k.spec_name() == "attn_decode_h128_c128"@,
        k == Kernel::AttnDecodeH64 ==> k.spec_name() == "attn_decode_h64"@,
        k == Kernel::AttnDecodeH64G8 ==> k.spec_name() == "attn_decode_h64_g8"@,
        k == Kernel::AttnDecodeH64G8C32 ==> k.spec_name() == "attn_decode_h64_g8_c32"@,
        k == Kernel::AttnDecodeF64 ==> k.spec_name() == "attn_decode_f64"@,
        k == Kernel::EmbedQ ==> k.spec_name() == "embed_q"@,
{
}

} // verus!

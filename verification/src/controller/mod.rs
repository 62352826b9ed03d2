pub mod mtk_gpu_miui;
